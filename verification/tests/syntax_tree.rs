//! The directive syntax tree is plain data; check it can be built and
//! compared as a dispatcher would.

use glsl_pp::syntax::{
    DefineDirective, Directive, ExtensionBehavior, ExtensionDirective, ExtensionName,
    IncludeDirective, Path, UndefDirective, VersionDirective, VersionProfile,
};

#[test]
fn build_and_compare_directives() {
    let define = Directive::Define(DefineDirective::Object {
        ident: "FOO".to_string(),
        value: "1".to_string(),
    });
    let function = Directive::Define(DefineDirective::Function {
        ident: "ADD".to_string(),
        args: vec!["x".to_string(), "y".to_string()],
        body: "((x) + (y))".to_string(),
    });
    assert_ne!(define, function);
    assert_eq!(define.clone(), define);

    let undef = Directive::Undef(UndefDirective {
        name: "FOO".to_string(),
    });
    assert_eq!(
        undef,
        Directive::Undef(UndefDirective {
            name: "FOO".to_string(),
        })
    );
}

#[test]
fn build_pass_through_directives() {
    let inclusion = Directive::Include(IncludeDirective {
        path: Path::Relative("common.glsl".to_string()),
    });
    assert_ne!(
        inclusion,
        Directive::Include(IncludeDirective {
            path: Path::Absolute("common.glsl".to_string()),
        })
    );

    let version = Directive::Version(VersionDirective {
        version: 330,
        profile: Some(VersionProfile::Core),
    });
    assert_eq!(version.clone(), version);

    let extension = Directive::Extension(ExtensionDirective {
        name: ExtensionName::Specific("GL_OES_standard_derivatives".to_string()),
        behavior: Some(ExtensionBehavior::Enable),
    });
    assert_ne!(
        extension,
        Directive::Extension(ExtensionDirective {
            name: ExtensionName::All,
            behavior: Some(ExtensionBehavior::Enable),
        })
    );
}
