//! GLSL preprocessor directive-interpretation engine.
//!
//! The engine recognizes C-preprocessor-style directives and interprets a
//! subset of them: `#define`/`#undef` drive a macro table with a
//! configurable override policy, and the `#if` family drives a nested
//! conditional-compilation stack with imbalance detection. Directives such
//! as `#include`, `#line`, `#pragma`, `#version` and `#extension` are only
//! recognized (see [`syntax`]) and are left for later stages.
//!
//! Problems never abort a run: every operation that detects one appends a
//! single [`PreprocessorError`] to an ordered diagnostic log and continues,
//! so a pass over a translation unit always completes and leaves both the
//! final macro table and the log inspectable.
//!
//! The character-level scanning that underlies directive recognition,
//! including line-continuation splicing, lives in [`parser`].

pub mod parser;
pub mod syntax;

use vstd::prelude::*;

verus! {

/// Runtime error recorded while preprocessing.
#[derive(Clone, Debug, PartialEq)]
pub enum PreprocessorError {
    /// A `#define` directive was issued with an identifier equal to a
    /// previously defined one, and the current define method disallows that.
    NotAuthorizedDefineOverride {
        /// Identifier that is already defined.
        ident: String,
        /// Value that is currently defined.
        current_value: Defined,
        /// Candidate value that was to be put instead.
        candidate_value: Defined,
    },
    /// An `#undef` directive was issued with an identifier that is not
    /// currently defined.
    UndefineUnknownSymbol { ident: String },
    /// Non-matching conditional, like a stray `#endif` without its `#if`.
    NonMatchingConditional,
    /// Code-driven error, carrying the literal text of an `#error` directive.
    CodeDriven(String),
}

/// Defined content of a macro.
#[derive(Clone, Debug, PartialEq)]
pub enum Defined {
    /// Object-like macro.
    Object(String),
    /// Function-like macro.
    Function {
        /// List of arguments.
        arg: Vec<String>,
        /// Body of the macro.
        body: String,
    },
}

/// Abstract value of a [`Defined`]: the same shape over character sequences.
pub enum DefinedValue {
    /// Object-like macro body.
    Object(Seq<char>),
    /// Function-like macro: argument names and body.
    Function { arg: Seq<Seq<char>>, body: Seq<char> },
}

/// Abstract value of a [`PreprocessorError`], over character sequences.
pub enum ErrorValue {
    /// A rejected redefinition, with the identifier, the value that stays
    /// and the candidate that was refused.
    NotAuthorizedDefineOverride {
        ident: Seq<char>,
        current_value: DefinedValue,
        candidate_value: DefinedValue,
    },
    /// An `#undef` of an identifier that was not defined.
    UndefineUnknownSymbol { ident: Seq<char> },
    /// A stray conditional close.
    NonMatchingConditional,
    /// The literal message of an `#error` directive.
    CodeDriven(Seq<char>),
}

impl View for Defined {
    type V = DefinedValue;

    open spec fn view(&self) -> DefinedValue {
        match self {
            Defined::Object(s) => DefinedValue::Object(s@),
            Defined::Function { arg, body } => DefinedValue::Function {
                arg: arg@.map_values(|a: String| a@),
                body: body@,
            },
        }
    }
}

impl View for PreprocessorError {
    type V = ErrorValue;

    open spec fn view(&self) -> ErrorValue {
        match self {
            PreprocessorError::NotAuthorizedDefineOverride { ident, current_value, candidate_value } =>
                ErrorValue::NotAuthorizedDefineOverride {
                    ident: ident@,
                    current_value: current_value@,
                    candidate_value: candidate_value@,
                },
            PreprocessorError::UndefineUnknownSymbol { ident } =>
                ErrorValue::UndefineUnknownSymbol { ident: ident@ },
            PreprocessorError::NonMatchingConditional => ErrorValue::NonMatchingConditional,
            PreprocessorError::CodeDriven(s) => ErrorValue::CodeDriven(s@),
        }
    }
}

impl Defined {
    /// Copy that keeps the abstract value.
    pub fn duplicate(&self) -> (r: Defined)
        ensures
            r@ == self@,
    {
        match self {
            Defined::Object(s) => Defined::Object(s.clone()),
            Defined::Function { arg, body } => {
                let mut arg2: Vec<String> = Vec::new();
                let mut i: usize = 0;
                while i < arg.len()
                    invariant
                        i <= arg@.len(),
                        arg2@ == arg@.subrange(0, i as int),
                    decreases arg@.len() - i,
                {
                    arg2.push(arg[i].clone());
                    proof {
                        assert(arg2@ =~= arg@.subrange(0, i as int + 1));
                    }
                    i = i + 1;
                }
                proof {
                    assert(arg2@ =~= arg@);
                }
                Defined::Function { arg: arg2, body: body.clone() }
            }
        }
    }
}

/// Ordered view of a diagnostic log.
pub open spec fn errors_view(log: Seq<PreprocessorError>) -> Seq<ErrorValue> {
    log.map_values(|e: PreprocessorError| e@)
}

/// True when no two entries of a macro table carry the same identifier.
pub open spec fn distinct_idents(entries: Seq<(String, Defined)>) -> bool {
    forall|i: int, j: int| 0 <= i < j < entries.len() ==> entries[i].0@ != entries[j].0@
}

/// The mapping a macro table holds: each entry's identifier to its value.
pub open spec fn macro_map(entries: Seq<(String, Defined)>) -> Map<Seq<char>, DefinedValue>
    decreases entries.len(),
{
    if entries.len() == 0 {
        Map::empty()
    } else {
        macro_map(entries.drop_last()).insert(entries.last().0@, entries.last().1@)
    }
}

/// An identifier that no entry carries is not in the mapping.
proof fn lemma_macro_map_absent(entries: Seq<(String, Defined)>, k: Seq<char>)
    requires
        forall|j: int| 0 <= j < entries.len() ==> entries[j].0@ != k,
    ensures
        !macro_map(entries).contains_key(k),
    decreases entries.len(),
{
    if entries.len() > 0 {
        assert forall|j: int| 0 <= j < entries.drop_last().len()
            implies entries.drop_last()[j].0@ != k by {
            assert(entries.drop_last()[j] == entries[j]);
        }
        lemma_macro_map_absent(entries.drop_last(), k);
    }
}

/// With distinct identifiers, each entry is in the mapping under its own
/// identifier, with its own value.
proof fn lemma_macro_map_index(entries: Seq<(String, Defined)>, i: int)
    requires
        distinct_idents(entries),
        0 <= i < entries.len(),
    ensures
        macro_map(entries).contains_key(entries[i].0@),
        macro_map(entries)[entries[i].0@] == entries[i].1@,
    decreases entries.len(),
{
    if i < entries.len() - 1 {
        assert(distinct_idents(entries.drop_last())) by {
            assert forall|a: int, b: int| 0 <= a < b < entries.drop_last().len()
                implies entries.drop_last()[a].0@ != entries.drop_last()[b].0@ by {
                assert(entries.drop_last()[a] == entries[a]);
                assert(entries.drop_last()[b] == entries[b]);
            }
        }
        lemma_macro_map_index(entries.drop_last(), i);
        assert(entries.drop_last()[i] == entries[i]);
        assert(entries.last().0@ != entries[i].0@);
    }
}

/// With distinct identifiers, removing an entry removes exactly its
/// identifier from the mapping.
proof fn lemma_macro_map_remove(entries: Seq<(String, Defined)>, i: int)
    requires
        distinct_idents(entries),
        0 <= i < entries.len(),
    ensures
        macro_map(entries.remove(i)) == macro_map(entries).remove(entries[i].0@),
    decreases entries.len(),
{
    let k = entries[i].0@;
    entries.remove_ensures(i);
    if i == entries.len() - 1 {
        assert(entries.remove(i) =~= entries.drop_last());
        assert forall|j: int| 0 <= j < entries.drop_last().len()
            implies entries.drop_last()[j].0@ != k by {
            assert(entries.drop_last()[j] == entries[j]);
        }
        lemma_macro_map_absent(entries.drop_last(), k);
        assert(macro_map(entries.drop_last()).insert(k, entries.last().1@).remove(k)
            =~= macro_map(entries.drop_last()));
    } else {
        let shorter = entries.drop_last();
        assert(distinct_idents(shorter)) by {
            assert forall|a: int, b: int| 0 <= a < b < shorter.len()
                implies shorter[a].0@ != shorter[b].0@ by {
                assert(shorter[a] == entries[a]);
                assert(shorter[b] == entries[b]);
            }
        }
        shorter.remove_ensures(i);
        lemma_macro_map_remove(shorter, i);
        assert(entries.remove(i).drop_last() =~= shorter.remove(i));
        assert(entries.remove(i).last() == entries.last());
        assert(shorter[i] == entries[i]);
        assert(entries.last().0@ != k);
        assert(macro_map(shorter).remove(k).insert(entries.last().0@, entries.last().1@)
            =~= macro_map(shorter).insert(entries.last().0@, entries.last().1@).remove(k));
    }
}

/// Character-by-character string comparison, proved against the views.
fn str_eq(a: &str, b: &str) -> (r: bool)
    ensures
        r == (a@ == b@),
{
    let na = a.unicode_len();
    let nb = b.unicode_len();
    if na != nb {
        return false;
    }
    let mut i: usize = 0;
    while i < na
        invariant
            na == a@.len(),
            nb == b@.len(),
            na == nb,
            i <= na,
            forall|j: int| 0 <= j < i ==> a@[j] == b@[j],
        decreases na - i,
    {
        if a.get_char(i) != b.get_char(i) {
            return false;
        }
        i = i + 1;
    }
    proof {
        assert(a@ =~= b@);
    }
    true
}

/// The values returned by `n` successive leave operations on a stack, per
/// the contract of [`Preprocessor::leave_conditional`]: innermost first.
pub open spec fn popped_values(stack: Seq<bool>, n: nat) -> Seq<bool>
    recommends
        n <= stack.len(),
    decreases n,
{
    if n == 0 || stack.len() == 0 {
        Seq::empty()
    } else {
        seq![stack.last()] + popped_values(stack.drop_last(), (n - 1) as nat)
    }
}

/// The stack left behind by `n` successive leave operations, per the
/// contract of [`Preprocessor::leave_conditional`].
pub open spec fn stack_after_pops(stack: Seq<bool>, n: nat) -> Seq<bool>
    recommends
        n <= stack.len(),
    decreases n,
{
    if n == 0 || stack.len() == 0 {
        stack
    } else {
        stack_after_pops(stack.drop_last(), (n - 1) as nat)
    }
}

/// Balanced conditionals are LIFO: entering the branches of `pushed` in
/// order on top of any `stack` and then leaving as many times returns the
/// pushed values in reverse order and restores `stack` — and, since every
/// one of those leaves finds a non-empty stack, the contract of
/// [`Preprocessor::leave_conditional`] adds no diagnostic for any of them.
pub proof fn lemma_conditional_lifo(stack: Seq<bool>, pushed: Seq<bool>)
    ensures
        popped_values(stack + pushed, pushed.len()) == pushed.reverse(),
        stack_after_pops(stack + pushed, pushed.len()) == stack,
    decreases pushed.len(),
{
    if pushed.len() == 0 {
        assert(stack + pushed =~= stack);
        assert(pushed.reverse() =~= Seq::<bool>::empty());
    } else {
        let whole = stack + pushed;
        assert(whole.last() == pushed.last());
        assert(whole.drop_last() =~= stack + pushed.drop_last());
        lemma_conditional_lifo(stack, pushed.drop_last());
        assert(popped_values(whole, pushed.len())
            == seq![pushed.last()] + pushed.drop_last().reverse());
        assert(pushed.reverse() =~= seq![pushed.last()] + pushed.drop_last().reverse());
    }
}

/// Options fixed for the lifetime of a preprocessor run.
#[derive(Clone, Debug, Eq, PartialEq)]
#[non_exhaustive]
struct PreprocessorOpt {
    /// [`DefineMethod`] to use every time a `#define` is encountered.
    define_method: DefineMethod,
}

/// Abstract state of a [`Preprocessor`].
pub struct PreprocessorState {
    /// The define method the run was configured with.
    pub method: DefineMethod,
    /// The macro table, as a mapping from identifier to defined value.
    pub syms: Map<Seq<char>, DefinedValue>,
    /// The diagnostic log, in exact chronological order of detection.
    pub errors: Seq<ErrorValue>,
    /// The conditional stack: truth values of the open branches, innermost
    /// last.
    pub stack: Seq<bool>,
}

/// The preprocessor: macro table, conditional stack, diagnostic log and
/// configuration. It exposes the mutation surface that an external
/// directive dispatcher drives while scanning a translation unit.
#[derive(Clone, Debug, PartialEq)]
pub struct Preprocessor {
    /// Options to use when preprocessing.
    opt: PreprocessorOpt,
    /// Runtime errors that have occurred while preprocessing.
    runtime_errors: Vec<PreprocessorError>,
    /// Currently defined values; each identifier appears at most once.
    defined_syms: Vec<(String, Defined)>,
    /// Currently active conditional code; `true` means that parsing should
    /// continue, `false` that input should be ignored until the next
    /// conditional or `#endif`.
    conditional_stack: Vec<bool>,
}

impl View for Preprocessor {
    type V = PreprocessorState;

    closed spec fn view(&self) -> PreprocessorState {
        PreprocessorState {
            method: self.opt.define_method,
            syms: macro_map(self.defined_syms@),
            errors: errors_view(self.runtime_errors@),
            stack: self.conditional_stack@,
        }
    }
}

impl Preprocessor {
    /// The macro table never holds two entries for one identifier.
    pub closed spec fn wf(self) -> bool {
        distinct_idents(self.defined_syms@)
    }

    /// Make a preprocessor with empty table, stack and log, configured with
    /// `define_method` for the whole run.
    pub fn new(define_method: DefineMethod) -> (r: Preprocessor)
        ensures
            r.wf(),
            r@.method == define_method,
            r@.syms == Map::<Seq<char>, DefinedValue>::empty(),
            r@.errors == Seq::<ErrorValue>::empty(),
            r@.stack == Seq::<bool>::empty(),
    {
        let r = Preprocessor {
            opt: PreprocessorOpt { define_method },
            runtime_errors: Vec::new(),
            defined_syms: Vec::new(),
            conditional_stack: Vec::new(),
        };
        proof {
            assert(r@.errors =~= Seq::<ErrorValue>::empty());
        }
        r
    }

    /// Index of the entry carrying `ident`, if any.
    fn find_sym(&self, ident: &str) -> (r: Option<usize>)
        ensures
            (match r {
                Some(i) => i < self.defined_syms@.len()
                    && self.defined_syms@[i as int].0@ == ident@,
                None => forall|j: int|
                    0 <= j < self.defined_syms@.len() ==> self.defined_syms@[j].0@ != ident@,
            }),
    {
        let n = self.defined_syms.len();
        let mut i: usize = 0;
        while i < n
            invariant
                n == self.defined_syms@.len(),
                i <= n,
                forall|j: int| 0 <= j < i ==> self.defined_syms@[j].0@ != ident@,
            decreases n - i,
        {
            if str_eq(self.defined_syms[i].0.as_str(), ident) {
                return Some(i);
            }
            i = i + 1;
        }
        None
    }

    /// Define a symbol.
    ///
    /// A previously undefined identifier stores `value` under any method.
    /// On a redefinition the configured [`DefineMethod`] decides: `Override`
    /// replaces the stored value, `Preserve` keeps it, and `FailOnOverride`
    /// keeps it and records exactly one diagnostic carrying the identifier,
    /// the value that stays and the refused candidate. The stack and the
    /// rest of the table are never touched.
    pub fn define_sym(&mut self, ident: String, value: Defined)
        requires
            old(self).wf(),
        ensures
            final(self).wf(),
            final(self)@.method == old(self)@.method,
            final(self)@.stack == old(self)@.stack,
            (if !old(self)@.syms.contains_key(ident@) {
                final(self)@.syms == old(self)@.syms.insert(ident@, value@)
                    && final(self)@.errors == old(self)@.errors
            } else {
                match old(self)@.method {
                    DefineMethod::Override =>
                        final(self)@.syms == old(self)@.syms.insert(ident@, value@)
                            && final(self)@.errors == old(self)@.errors,
                    DefineMethod::Preserve =>
                        final(self)@.syms == old(self)@.syms
                            && final(self)@.errors == old(self)@.errors,
                    DefineMethod::FailOnOverride =>
                        final(self)@.syms == old(self)@.syms
                            && final(self)@.errors == old(self)@.errors.push(
                                (ErrorValue::NotAuthorizedDefineOverride {
                                    ident: ident@,
                                    current_value: old(self)@.syms[ident@],
                                    candidate_value: value@,
                                }),
                            ),
                }
            }),
    {
        let ghost id: Seq<char> = ident@;
        let found = self.find_sym(ident.as_str());
        match found {
            None => {
                proof {
                    lemma_macro_map_absent(self.defined_syms@, id);
                }
                let ghost entries0: Seq<(String, Defined)> = self.defined_syms@;
                self.defined_syms.push((ident, value));
                proof {
                    assert(self.defined_syms@.drop_last() =~= entries0);
                    assert forall|a: int, b: int| 0 <= a < b < self.defined_syms@.len()
                        implies self.defined_syms@[a].0@ != self.defined_syms@[b].0@ by {
                        if b < entries0.len() as int {
                            assert(self.defined_syms@[a] == entries0[a]);
                            assert(self.defined_syms@[b] == entries0[b]);
                        } else {
                            assert(self.defined_syms@[a] == entries0[a]);
                        }
                    }
                }
            }
            Some(i) => {
                proof {
                    lemma_macro_map_index(self.defined_syms@, i as int);
                }
                match self.opt.define_method {
                    DefineMethod::Override => {
                        proof {
                            lemma_macro_map_remove(self.defined_syms@, i as int);
                            self.defined_syms@.remove_ensures(i as int);
                        }
                        let ghost entries0: Seq<(String, Defined)> = self.defined_syms@;
                        let _removed = self.defined_syms.remove(i);
                        let ghost entries1: Seq<(String, Defined)> = self.defined_syms@;
                        proof {
                            assert forall|a: int, b: int| 0 <= a < b < entries1.len()
                                implies entries1[a].0@ != entries1[b].0@ by {
                                entries0.remove_ensures(i as int);
                            }
                            assert forall|j: int| 0 <= j < entries1.len()
                                implies entries1[j].0@ != id by {
                                entries0.remove_ensures(i as int);
                            }
                            lemma_macro_map_absent(entries1, id);
                        }
                        self.defined_syms.push((ident, value));
                        proof {
                            assert(self.defined_syms@.drop_last() =~= entries1);
                            assert forall|a: int, b: int| 0 <= a < b < self.defined_syms@.len()
                                implies self.defined_syms@[a].0@ != self.defined_syms@[b].0@ by {
                                if b < entries1.len() as int {
                                    assert(self.defined_syms@[a] == entries1[a]);
                                    assert(self.defined_syms@[b] == entries1[b]);
                                } else {
                                    assert(self.defined_syms@[a] == entries1[a]);
                                }
                            }
                            assert(macro_map(self.defined_syms@)
                                =~= macro_map(entries0).insert(id, value@));
                        }
                    }
                    DefineMethod::Preserve => {}
                    DefineMethod::FailOnOverride => {
                        let ghost log0: Seq<PreprocessorError> = self.runtime_errors@;
                        let current = self.defined_syms[i].1.duplicate();
                        self.runtime_errors.push(
                            PreprocessorError::NotAuthorizedDefineOverride {
                                ident,
                                current_value: current,
                                candidate_value: value,
                            },
                        );
                        proof {
                            assert(errors_view(self.runtime_errors@)
                                =~= errors_view(log0).push(
                                    (ErrorValue::NotAuthorizedDefineOverride {
                                        ident: id,
                                        current_value: macro_map(self.defined_syms@)[id],
                                        candidate_value: value@,
                                    }),
                                ));
                        }
                    }
                }
            }
        }
    }

    /// Undefine a symbol.
    ///
    /// A defined identifier is removed silently; an unknown one leaves the
    /// table untouched and records exactly one diagnostic.
    pub fn undef_sym(&mut self, ident: &str)
        requires
            old(self).wf(),
        ensures
            final(self).wf(),
            final(self)@.method == old(self)@.method,
            final(self)@.stack == old(self)@.stack,
            (if old(self)@.syms.contains_key(ident@) {
                final(self)@.syms == old(self)@.syms.remove(ident@)
                    && final(self)@.errors == old(self)@.errors
            } else {
                final(self)@.syms == old(self)@.syms
                    && final(self)@.errors == old(self)@.errors.push(
                        (ErrorValue::UndefineUnknownSymbol { ident: ident@ }),
                    )
            }),
    {
        match self.find_sym(ident) {
            Some(i) => {
                proof {
                    lemma_macro_map_index(self.defined_syms@, i as int);
                    lemma_macro_map_remove(self.defined_syms@, i as int);
                    self.defined_syms@.remove_ensures(i as int);
                }
                let ghost entries0: Seq<(String, Defined)> = self.defined_syms@;
                let _removed = self.defined_syms.remove(i);
                proof {
                    assert forall|a: int, b: int| 0 <= a < b < self.defined_syms@.len()
                        implies self.defined_syms@[a].0@ != self.defined_syms@[b].0@ by {
                        entries0.remove_ensures(i as int);
                    }
                }
            }
            None => {
                proof {
                    lemma_macro_map_absent(self.defined_syms@, ident@);
                }
                let ghost log0: Seq<PreprocessorError> = self.runtime_errors@;
                self.runtime_errors.push(PreprocessorError::UndefineUnknownSymbol {
                    ident: ident.to_owned(),
                });
                proof {
                    assert(errors_view(self.runtime_errors@)
                        =~= errors_view(log0).push(
                            (ErrorValue::UndefineUnknownSymbol { ident: ident@ }),
                        ));
                }
            }
        }
    }

    /// Enter a conditional scope: push the branch's truth value. Always
    /// succeeds, no diagnostic.
    pub fn enter_conditional(&mut self, condition: bool)
        ensures
            final(self).wf() == old(self).wf(),
            final(self)@.method == old(self)@.method,
            final(self)@.syms == old(self)@.syms,
            final(self)@.errors == old(self)@.errors,
            final(self)@.stack == old(self)@.stack.push(condition),
    {
        self.conditional_stack.push(condition);
    }

    /// Leave a conditional scope: pop and return the innermost branch's
    /// truth value. On an empty stack, record exactly one non-matching
    /// conditional diagnostic, leave the stack untouched and return `None`.
    pub fn leave_conditional(&mut self) -> (r: Option<bool>)
        ensures
            final(self).wf() == old(self).wf(),
            final(self)@.method == old(self)@.method,
            final(self)@.syms == old(self)@.syms,
            (if old(self)@.stack.len() > 0 {
                r == Some(old(self)@.stack.last())
                    && final(self)@.stack == old(self)@.stack.drop_last()
                    && final(self)@.errors == old(self)@.errors
            } else {
                r == None::<bool>
                    && final(self)@.stack == old(self)@.stack
                    && final(self)@.errors == old(self)@.errors.push(
                        ErrorValue::NonMatchingConditional,
                    )
            }),
    {
        let cond = self.conditional_stack.pop();
        if cond.is_none() {
            let ghost log0: Seq<PreprocessorError> = self.runtime_errors@;
            self.runtime_errors.push(PreprocessorError::NonMatchingConditional);
            proof {
                assert(errors_view(self.runtime_errors@)
                    =~= errors_view(log0).push(ErrorValue::NonMatchingConditional));
            }
        }
        proof {
            if old(self)@.stack.len() > 0 {
                assert(final(self)@.stack =~= old(self)@.stack.drop_last());
            }
        }
        cond
    }

    /// Whether the dispatcher should currently be ignoring input: the
    /// innermost open branch's truth value, or `true` at top level, by
    /// definition. The literal values are kept exactly as specified,
    /// whatever the name may suggest about their polarity.
    pub fn is_ignoring(&self) -> (r: bool)
        ensures
            r == (if self@.stack.len() > 0 {
                self@.stack.last()
            } else {
                true
            }),
    {
        let n = self.conditional_stack.len();
        if n == 0 {
            true
        } else {
            self.conditional_stack[n - 1]
        }
    }

    /// Record a code-driven error: the literal message of an `#error`
    /// directive, appended to the log and not interpreted further.
    pub fn raise_error(&mut self, error: String)
        ensures
            final(self).wf() == old(self).wf(),
            final(self)@.method == old(self)@.method,
            final(self)@.syms == old(self)@.syms,
            final(self)@.stack == old(self)@.stack,
            final(self)@.errors == old(self)@.errors.push(ErrorValue::CodeDriven(error@)),
    {
        let ghost log0: Seq<PreprocessorError> = self.runtime_errors@;
        let ghost msg: Seq<char> = error@;
        self.runtime_errors.push(PreprocessorError::CodeDriven(error));
        proof {
            assert(errors_view(self.runtime_errors@)
                =~= errors_view(log0).push(ErrorValue::CodeDriven(msg)));
        }
    }

    /// The diagnostic log, in order of detection.
    pub fn errors(&self) -> (r: &Vec<PreprocessorError>)
        ensures
            errors_view(r@) == self@.errors,
    {
        &self.runtime_errors
    }

    /// The value currently defined for `ident`, if any.
    pub fn defined_value(&self, ident: &str) -> (r: Option<&Defined>)
        requires
            self.wf(),
        ensures
            (match r {
                Some(d) => self@.syms.contains_key(ident@) && d@ == self@.syms[ident@],
                None => !self@.syms.contains_key(ident@),
            }),
    {
        match self.find_sym(ident) {
            Some(i) => {
                proof {
                    lemma_macro_map_index(self.defined_syms@, i as int);
                }
                Some(&self.defined_syms[i].1)
            }
            None => {
                proof {
                    lemma_macro_map_absent(self.defined_syms@, ident@);
                }
                None
            }
        }
    }
}

/// Method to apply when running the `#define` directive, fixed for the
/// lifetime of a [`Preprocessor`].
#[derive(Clone, Debug, Eq, PartialEq)]
pub enum DefineMethod {
    /// Override a symbol if it already exists.
    Override,
    /// Do not define if a symbol already exists; keep the old value silently.
    Preserve,
    /// Keep the old value and record a diagnostic.
    FailOnOverride,
}

} // verus!
