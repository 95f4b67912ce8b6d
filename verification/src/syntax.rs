//! The preprocessor directive syntax tree.
//!
//! These types form the data contract between an external directive
//! dispatcher (which recognizes directive lines in the source text) and the
//! interpretation engine in the crate root. The engine interprets `#define`,
//! `#undef` and the conditional family; the remaining directives are carried
//! through untouched for later compilation stages.

use vstd::prelude::*;

verus! {

/// All the preprocessor directives this crate recognizes.
#[derive(Clone, Debug, PartialEq)]
pub enum Directive {
    /// The `#define` directive.
    Define(DefineDirective),
    /// The `#undef` directive.
    Undef(UndefDirective),
    /// The `#if` directive.
    If(IfDirective),
    /// The `#ifdef` directive.
    IfDef(IfDefDirective),
    /// The `#ifndef` directive.
    IfNDef(IfNDefDirective),
    /// The `#else` directive.
    ElseDirective,
    /// The `#elseif` directive.
    ElseIf(ElseIfDirective),
    /// The `#endif` directive.
    EndIf,
    /// The `#error` directive.
    Error(ErrorDirective),
    /// The `#include` directive.
    Include(IncludeDirective),
    /// The `#line` directive.
    Line(LineDirective),
    /// The `#pragma` directive.
    Pragma(PragmaDirective),
    /// The `#version` directive.
    Version(VersionDirective),
    /// The `#extension` directive.
    Extension(ExtensionDirective),
}

/// A `#define` directive, either object-like (`#define foo 123`) or
/// function-like (`#define foo(x) (123 + (x))`).
#[derive(Clone, Debug, PartialEq)]
pub enum DefineDirective {
    /// An object macro.
    Object { ident: String, value: String },
    /// A function macro.
    Function {
        ident: String,
        args: Vec<String>,
        body: String,
    },
}

/// An `#elseif` directive.
#[derive(Clone, Debug, PartialEq)]
pub struct ElseIfDirective {
    /// Carried condition, kept as opaque text.
    pub condition: String,
}

/// An `#error` directive.
#[derive(Clone, Debug, PartialEq)]
pub struct ErrorDirective {
    /// Message to surface at compile time.
    pub message: String,
}

/// An `#if` directive.
#[derive(Clone, Debug, PartialEq)]
pub struct IfDirective {
    /// Carried condition, kept as opaque text.
    pub condition: String,
}

/// An `#ifdef` directive.
#[derive(Clone, Debug, PartialEq)]
pub struct IfDefDirective {
    /// Identifier that must be defined for the condition to hold.
    pub ident: String,
}

/// An `#ifndef` directive.
#[derive(Clone, Debug, PartialEq)]
pub struct IfNDefDirective {
    /// Identifier that must not be defined for the condition to hold.
    pub ident: String,
}

/// An `#include` directive.
#[derive(Clone, Debug, PartialEq)]
pub struct IncludeDirective {
    /// Path to the file.
    pub path: Path,
}

/// A `#line` directive.
#[derive(Clone, Debug, PartialEq)]
pub struct LineDirective {
    /// Line number.
    pub line: u32,
    /// Source string number.
    pub source_string_number: Option<u32>,
}

/// A `#pragma` directive; holds a compiler-specific command.
#[derive(Clone, Debug, PartialEq)]
pub struct PragmaDirective {
    /// Pragma command.
    pub command: String,
}

/// An `#undef` directive.
#[derive(Clone, Debug, PartialEq)]
pub struct UndefDirective {
    /// Name to unset.
    pub name: String,
}

/// A `#version` directive.
#[derive(Clone, Debug, PartialEq)]
pub struct VersionDirective {
    /// Version to use.
    pub version: u16,
    /// Profile to use.
    pub profile: Option<VersionProfile>,
}

/// A `#version` profile annotation.
#[derive(Clone, Debug, PartialEq)]
pub enum VersionProfile {
    /// The core profile.
    Core,
    /// The compatibility profile.
    Compatibility,
    /// The OpenGL ES profile.
    ES,
}

/// An `#extension` directive.
#[derive(Clone, Debug, PartialEq)]
pub struct ExtensionDirective {
    /// Name of the extension.
    pub name: ExtensionName,
    /// Extension behavior.
    pub behavior: Option<ExtensionBehavior>,
}

/// An `#extension` name annotation.
#[derive(Clone, Debug, PartialEq)]
pub enum ExtensionName {
    /// Every extension at once.
    All,
    /// A specific extension.
    Specific(String),
}

/// An `#extension` behavior annotation.
#[derive(Clone, Debug, PartialEq)]
pub enum ExtensionBehavior {
    /// The extension is required.
    Require,
    /// The extension is enabled.
    Enable,
    /// Warn if the extension is not available.
    Warn,
    /// Disable the extension.
    Disable,
}

/// A path literal of an `#include`.
#[derive(Clone, Debug, PartialEq)]
pub enum Path {
    /// Specified with angle brackets.
    Absolute(String),
    /// Specified with double quotes.
    Relative(String),
}

/// A function macro representation.
#[derive(Clone, Debug, PartialEq)]
pub struct FnMacro {
    /// Name of the macro.
    name: String,
    /// Names of the arguments.
    args: Vec<String>,
    /// Content of the macro.
    body: String,
}

} // verus!
