//! The arguments of the kernel test attribute and the shapes of test
//! functions it accepts.
//!
//! The attribute reads a list of items separated by commas: flags such as
//! `focus`, `ignore` or `mp`, `name: <expr>` and `expected_exit: <expr>`, or
//! bare expressions, the first of which is the name and the second the
//! expected exit. The tokens arrive already split into identifiers,
//! punctuation and whole expressions.

use vstd::prelude::*;

use super::TestFunctionVariance;

verus! {

/// An expression in the attribute: a path such as `TestExitState::Panic`, or
/// another expression, held as its text.
#[derive(Debug, Clone, PartialEq, Eq)]
pub enum ArgExpr {
    /// A path, with or without a leading `::`
    Path { leading_colon: bool, segments: Vec<String> },
    /// Any other expression
    Other(String),
}

/// A token of the attribute's arguments.
#[derive(Debug, Clone, PartialEq, Eq)]
pub enum ArgToken {
    /// An identifier
    Ident(String),
    /// `,`
    Comma,
    /// `:`
    Colon,
    /// A whole expression given as a value, such as `"boot"` or the path
    /// `TestExitState::Panic`; an identifier that stands alone in the place
    /// of an argument comes as [ArgToken::Ident]. Only after a `:` may the
    /// expression start with an identifier: in the place of an argument such
    /// an expression is refused, see [ArgsError::IdentifierExpr]
    Expr(ArgExpr),
}

/// The reasons the attribute's arguments are refused.
#[derive(Debug, Clone, PartialEq, Eq)]
pub enum ArgsError {
    /// `name` was given twice
    NameTwice,
    /// `expected_exit` was given twice
    ExpectedExitTwice,
    /// A flag was given twice; the flag's name
    FlagTwice(String),
    /// An identifier that is no argument
    UnknownArgument(String),
    /// `name` or `expected_exit` is not followed by `:`
    ExpectedColon,
    /// An expression was expected
    ExpectedExpr,
    /// A third bare expression, after the name and the expected exit
    TooManyValues,
    /// An expression that starts with an identifier, such as the path
    /// `TestExitState::Panic`, where an argument should start: there it is
    /// read as the name of an argument, which it cannot be
    IdentifierExpr,
    /// `cfg` was given twice
    CfgTwice,
    /// A token where an argument should start
    UnexpectedArgument,
}

/// The arguments of a kernel test.
#[derive(Debug, Clone, PartialEq, Eq)]
pub struct TestArgs {
    /// The name of the test, if given
    pub name: Option<ArgExpr>,
    /// The expected exit, if given
    pub expected_exit: Option<ArgExpr>,
    /// `focus`, `x` or `f`: only focused tests run
    pub focus: bool,
    /// `ignore` or `i`: the test only runs when focused
    pub ignore: bool,
    /// `multiprocessor` or `mp`: the test runs on all processors
    pub multiprocessor: bool,
    /// The test may leak frames
    pub allow_frame_leak: bool,
    /// The test may leak pages
    pub allow_page_leak: bool,
    /// The test may leak heap memory
    pub allow_heap_leak: bool,
    /// The test may leak mappings
    pub allow_mapping_leak: bool,
}

/// The flags of the attribute.
#[derive(Debug, Clone, Copy, PartialEq, Eq, Structural)]
pub enum Flag {
    Focus,
    Ignore,
    Multiprocessor,
    AllowFrameLeak,
    AllowPageLeak,
    AllowHeapLeak,
    AllowMappingLeak,
}

/// Whether `c` can begin an identifier: an ASCII letter, `_`, or a
/// character beyond ASCII, which outside a literal only an identifier holds.
pub open spec fn spec_ident_start(c: char) -> bool {
    ('a' <= c && c <= 'z') || ('A' <= c && c <= 'Z') || c == '_' || c as u32 >= 0x80
}

/// Whether an expression starts with an identifier: a path without a
/// leading `::`, or another expression whose text begins with a character
/// that begins an identifier, such as `true` or `foo(1)`.
pub open spec fn spec_starts_with_ident(e: ArgExpr) -> bool {
    match e {
        ArgExpr::Path { leading_colon, .. } => !leading_colon,
        ArgExpr::Other(text) => text@.len() > 0 && spec_ident_start(text@[0]),
    }
}

/// Whether an expression starts with an identifier, see [spec_starts_with_ident].
pub fn starts_with_ident(e: &ArgExpr) -> (r: bool)
    ensures
        r == spec_starts_with_ident(*e),
{
    match e {
        ArgExpr::Path { leading_colon, .. } => !*leading_colon,
        ArgExpr::Other(text) => {
            let t = text.as_str();
            if t.unicode_len() == 0 {
                return false;
            }
            let c = t.get_char(0);
            ('a' <= c && c <= 'z') || ('A' <= c && c <= 'Z') || c == '_' || (c as u32) >= 0x80
        },
    }
}

/// The flag that an identifier names, if any.
pub open spec fn spec_flag_of(ident: Seq<char>) -> Option<Flag> {
    if ident == "focus"@ || ident == "x"@ || ident == "f"@ {
        Some(Flag::Focus)
    } else if ident == "ignore"@ || ident == "i"@ {
        Some(Flag::Ignore)
    } else if ident == "multiprocessor"@ || ident == "mp"@ {
        Some(Flag::Multiprocessor)
    } else if ident == "allow_frame_leak"@ {
        Some(Flag::AllowFrameLeak)
    } else if ident == "allow_page_leak"@ {
        Some(Flag::AllowPageLeak)
    } else if ident == "allow_heap_leak"@ {
        Some(Flag::AllowHeapLeak)
    } else if ident == "allow_mapping_leak"@ {
        Some(Flag::AllowMappingLeak)
    } else {
        None
    }
}

/// Whether two strings hold the same characters.
fn same_text(a: &String, b: &str) -> (r: bool)
    ensures
        r == (a@ == b@),
{
    *a == b.to_owned()
}

/// The flag that an identifier names, if any.
pub fn flag_of(ident: &String) -> (r: Option<Flag>)
    ensures
        r == spec_flag_of(ident@),
{
    if same_text(ident, "focus") || same_text(ident, "x") || same_text(ident, "f") {
        Some(Flag::Focus)
    } else if same_text(ident, "ignore") || same_text(ident, "i") {
        Some(Flag::Ignore)
    } else if same_text(ident, "multiprocessor") || same_text(ident, "mp") {
        Some(Flag::Multiprocessor)
    } else if same_text(ident, "allow_frame_leak") {
        Some(Flag::AllowFrameLeak)
    } else if same_text(ident, "allow_page_leak") {
        Some(Flag::AllowPageLeak)
    } else if same_text(ident, "allow_heap_leak") {
        Some(Flag::AllowHeapLeak)
    } else if same_text(ident, "allow_mapping_leak") {
        Some(Flag::AllowMappingLeak)
    } else {
        None
    }
}

impl TestArgs {
    /// The arguments of a test that gives none.
    pub open spec fn spec_default() -> Self {
        TestArgs {
            name: None,
            expected_exit: None,
            focus: false,
            ignore: false,
            multiprocessor: false,
            allow_frame_leak: false,
            allow_page_leak: false,
            allow_heap_leak: false,
            allow_mapping_leak: false,
        }
    }

    /// Whether `flag` is set.
    pub open spec fn has_flag(self, flag: Flag) -> bool {
        match flag {
            Flag::Focus => self.focus,
            Flag::Ignore => self.ignore,
            Flag::Multiprocessor => self.multiprocessor,
            Flag::AllowFrameLeak => self.allow_frame_leak,
            Flag::AllowPageLeak => self.allow_page_leak,
            Flag::AllowHeapLeak => self.allow_heap_leak,
            Flag::AllowMappingLeak => self.allow_mapping_leak,
        }
    }

    /// The arguments with `flag` set.
    pub open spec fn with_flag(self, flag: Flag) -> Self {
        match flag {
            Flag::Focus => TestArgs { focus: true, ..self },
            Flag::Ignore => TestArgs { ignore: true, ..self },
            Flag::Multiprocessor => TestArgs { multiprocessor: true, ..self },
            Flag::AllowFrameLeak => TestArgs { allow_frame_leak: true, ..self },
            Flag::AllowPageLeak => TestArgs { allow_page_leak: true, ..self },
            Flag::AllowHeapLeak => TestArgs { allow_heap_leak: true, ..self },
            Flag::AllowMappingLeak => TestArgs { allow_mapping_leak: true, ..self },
        }
    }

    /// Whether `flag` is set.
    fn flag(&self, flag: Flag) -> (r: bool)
        ensures
            r == self.has_flag(flag),
    {
        match flag {
            Flag::Focus => self.focus,
            Flag::Ignore => self.ignore,
            Flag::Multiprocessor => self.multiprocessor,
            Flag::AllowFrameLeak => self.allow_frame_leak,
            Flag::AllowPageLeak => self.allow_page_leak,
            Flag::AllowHeapLeak => self.allow_heap_leak,
            Flag::AllowMappingLeak => self.allow_mapping_leak,
        }
    }

    /// Sets `flag`.
    fn set_flag(&mut self, flag: Flag)
        ensures
            *final(self) == old(self).with_flag(flag),
    {
        match flag {
            Flag::Focus => self.focus = true,
            Flag::Ignore => self.ignore = true,
            Flag::Multiprocessor => self.multiprocessor = true,
            Flag::AllowFrameLeak => self.allow_frame_leak = true,
            Flag::AllowPageLeak => self.allow_page_leak = true,
            Flag::AllowHeapLeak => self.allow_heap_leak = true,
            Flag::AllowMappingLeak => self.allow_mapping_leak = true,
        }
    }
}

impl Default for TestArgs {
    fn default() -> (r: Self)
        ensures
            r == Self::spec_default(),
    {
        TestArgs {
            name: None,
            expected_exit: None,
            focus: false,
            ignore: false,
            multiprocessor: false,
            allow_frame_leak: false,
            allow_page_leak: false,
            allow_heap_leak: false,
            allow_mapping_leak: false,
        }
    }
}

/// The arguments read from `tokens` from position `i` on, where `args` were
/// read before: flags may appear once, `name` and `expected_exit` are given
/// by keyword with `:` or as the first and second bare expression, which
/// must not start with an identifier, and commas are skipped. The first
/// problem met in reading order is reported.
pub open spec fn spec_parse_from(tokens: Seq<ArgToken>, i: int, args: TestArgs) -> Result<
    TestArgs,
    ArgsError,
>
    decreases tokens.len() - i,
{
    if i < 0 || i >= tokens.len() {
        Ok(args)
    } else {
        match tokens[i] {
            ArgToken::Comma => spec_parse_from(tokens, i + 1, args),
            ArgToken::Colon => Err(ArgsError::ExpectedExpr),
            ArgToken::Expr(e) => if spec_starts_with_ident(e) {
                Err(ArgsError::IdentifierExpr)
            } else if args.name is None {
                spec_parse_from(tokens, i + 1, TestArgs { name: Some(e), ..args })
            } else if args.expected_exit is None {
                spec_parse_from(tokens, i + 1, TestArgs { expected_exit: Some(e), ..args })
            } else {
                Err(ArgsError::TooManyValues)
            },
            ArgToken::Ident(ident) => if ident@ == "name"@ || ident@ == "expected_exit"@ {
                let is_name = ident@ == "name"@;
                if is_name && args.name is Some {
                    Err(ArgsError::NameTwice)
                } else if !is_name && args.expected_exit is Some {
                    Err(ArgsError::ExpectedExitTwice)
                } else if i + 1 >= tokens.len() || !(tokens[i + 1] is Colon) {
                    Err(ArgsError::ExpectedColon)
                } else if i + 2 >= tokens.len() || !(tokens[i + 2] is Expr) {
                    Err(ArgsError::ExpectedExpr)
                } else {
                    let e = tokens[i + 2]->Expr_0;
                    spec_parse_from(
                        tokens,
                        i + 3,
                        if is_name {
                            TestArgs { name: Some(e), ..args }
                        } else {
                            TestArgs { expected_exit: Some(e), ..args }
                        },
                    )
                }
            } else {
                match spec_flag_of(ident@) {
                    Some(flag) => if args.has_flag(flag) {
                        Err(ArgsError::FlagTwice(ident))
                    } else {
                        spec_parse_from(tokens, i + 1, args.with_flag(flag))
                    },
                    None => Err(ArgsError::UnknownArgument(ident)),
                }
            },
        }
    }
}

impl TestArgs {
    /// Reads the arguments of the kernel test attribute, see [spec_parse_from].
    pub fn parse(tokens: Vec<ArgToken>) -> (r: Result<TestArgs, ArgsError>)
        ensures
            r == spec_parse_from(tokens@, 0, TestArgs::spec_default()),
    {
        let ghost all = tokens@;
        let mut rest = tokens;
        let mut args = TestArgs::default();
        let ghost mut i: int = 0;
        proof {
            assert(all.skip(0) =~= all);
            reveal_strlit("name");
            reveal_strlit("expected_exit");
        }
        while rest.len() > 0
            invariant
                all == tokens@,
                0 <= i <= all.len(),
                rest@ == all.skip(i),
                spec_parse_from(all, i, args) == spec_parse_from(all, 0, TestArgs::spec_default()),
            decreases rest@.len(),
        {
            let token = rest.remove(0);
            proof {
                assert(all[i] == token);
                assert(rest@ =~= all.skip(i + 1));
            }
            match token {
                ArgToken::Comma => {
                    proof {
                        i = i + 1;
                    }
                },
                ArgToken::Colon => {
                    return Err(ArgsError::ExpectedExpr);
                },
                ArgToken::Expr(e) => {
                    if starts_with_ident(&e) {
                        return Err(ArgsError::IdentifierExpr);
                    }
                    if args.name.is_none() {
                        args.name = Some(e);
                    } else if args.expected_exit.is_none() {
                        args.expected_exit = Some(e);
                    } else {
                        return Err(ArgsError::TooManyValues);
                    }
                    proof {
                        i = i + 1;
                    }
                },
                ArgToken::Ident(ident) => {
                    let is_name = same_text(&ident, "name");
                    if is_name || same_text(&ident, "expected_exit") {
                        if is_name && args.name.is_some() {
                            return Err(ArgsError::NameTwice);
                        }
                        if !is_name && args.expected_exit.is_some() {
                            return Err(ArgsError::ExpectedExitTwice);
                        }
                        if rest.len() == 0 || !matches!(rest[0], ArgToken::Colon) {
                            return Err(ArgsError::ExpectedColon);
                        }
                        let _colon = rest.remove(0);
                        proof {
                            assert(rest@ =~= all.skip(i + 2));
                        }
                        if rest.len() == 0 {
                            return Err(ArgsError::ExpectedExpr);
                        }
                        let value = rest.remove(0);
                        proof {
                            assert(all[i + 2] == value);
                            assert(rest@ =~= all.skip(i + 3));
                        }
                        match value {
                            ArgToken::Expr(e) => {
                                if is_name {
                                    args.name = Some(e);
                                } else {
                                    args.expected_exit = Some(e);
                                }
                            },
                            _ => {
                                return Err(ArgsError::ExpectedExpr);
                            },
                        }
                        proof {
                            i = i + 3;
                        }
                    } else {
                        match flag_of(&ident) {
                            Some(flag) => {
                                if args.flag(flag) {
                                    return Err(ArgsError::FlagTwice(ident));
                                }
                                args.set_flag(flag);
                            },
                            None => {
                                return Err(ArgsError::UnknownArgument(ident));
                            },
                        }
                        proof {
                            i = i + 1;
                        }
                    }
                },
            }
        }
        Ok(args)
    }
}

impl TestArgs {
    /// Whether the test is expected to panic: its expected exit is the path
    /// `TestExitState::Panic`, without a leading `::`.
    pub open spec fn spec_is_panicing(self) -> bool {
        match self.expected_exit {
            Some(ArgExpr::Path { leading_colon, segments }) => !leading_colon && segments@.len() == 2
                && segments@[0]@ == "TestExitState"@ && segments@[1]@ == "Panic"@,
            _ => false,
        }
    }

    /// Whether the test is expected to panic, see
    /// [TestArgs::spec_is_panicing].
    pub fn is_panicing(&self) -> (r: bool)
        ensures
            r == self.spec_is_panicing(),
    {
        match &self.expected_exit {
            Some(ArgExpr::Path { leading_colon, segments }) => {
                if *leading_colon || segments.len() != 2 {
                    return false;
                }
                same_text(&segments[0], "TestExitState") && same_text(&segments[1], "Panic")
            },
            _ => false,
        }
    }
}

/// The identifiers of the arguments are all different.
proof fn lemma_argument_names_differ()
    ensures
        "focus"@ != "x"@,
        "focus"@ != "f"@,
        "focus"@ != "ignore"@,
        "focus"@ != "i"@,
        "focus"@ != "multiprocessor"@,
        "focus"@ != "mp"@,
        "focus"@ != "allow_frame_leak"@,
        "focus"@ != "allow_page_leak"@,
        "focus"@ != "allow_heap_leak"@,
        "focus"@ != "allow_mapping_leak"@,
        "focus"@ != "name"@,
        "focus"@ != "expected_exit"@,
        "x"@ != "f"@,
        "x"@ != "ignore"@,
        "x"@ != "i"@,
        "x"@ != "multiprocessor"@,
        "x"@ != "mp"@,
        "x"@ != "allow_frame_leak"@,
        "x"@ != "allow_page_leak"@,
        "x"@ != "allow_heap_leak"@,
        "x"@ != "allow_mapping_leak"@,
        "x"@ != "name"@,
        "x"@ != "expected_exit"@,
        "f"@ != "ignore"@,
        "f"@ != "i"@,
        "f"@ != "multiprocessor"@,
        "f"@ != "mp"@,
        "f"@ != "allow_frame_leak"@,
        "f"@ != "allow_page_leak"@,
        "f"@ != "allow_heap_leak"@,
        "f"@ != "allow_mapping_leak"@,
        "f"@ != "name"@,
        "f"@ != "expected_exit"@,
        "ignore"@ != "i"@,
        "ignore"@ != "multiprocessor"@,
        "ignore"@ != "mp"@,
        "ignore"@ != "allow_frame_leak"@,
        "ignore"@ != "allow_page_leak"@,
        "ignore"@ != "allow_heap_leak"@,
        "ignore"@ != "allow_mapping_leak"@,
        "ignore"@ != "name"@,
        "ignore"@ != "expected_exit"@,
        "i"@ != "multiprocessor"@,
        "i"@ != "mp"@,
        "i"@ != "allow_frame_leak"@,
        "i"@ != "allow_page_leak"@,
        "i"@ != "allow_heap_leak"@,
        "i"@ != "allow_mapping_leak"@,
        "i"@ != "name"@,
        "i"@ != "expected_exit"@,
        "multiprocessor"@ != "mp"@,
        "multiprocessor"@ != "allow_frame_leak"@,
        "multiprocessor"@ != "allow_page_leak"@,
        "multiprocessor"@ != "allow_heap_leak"@,
        "multiprocessor"@ != "allow_mapping_leak"@,
        "multiprocessor"@ != "name"@,
        "multiprocessor"@ != "expected_exit"@,
        "mp"@ != "allow_frame_leak"@,
        "mp"@ != "allow_page_leak"@,
        "mp"@ != "allow_heap_leak"@,
        "mp"@ != "allow_mapping_leak"@,
        "mp"@ != "name"@,
        "mp"@ != "expected_exit"@,
        "allow_frame_leak"@ != "allow_page_leak"@,
        "allow_frame_leak"@ != "allow_heap_leak"@,
        "allow_frame_leak"@ != "allow_mapping_leak"@,
        "allow_frame_leak"@ != "name"@,
        "allow_frame_leak"@ != "expected_exit"@,
        "allow_page_leak"@ != "allow_heap_leak"@,
        "allow_page_leak"@ != "allow_mapping_leak"@,
        "allow_page_leak"@ != "name"@,
        "allow_page_leak"@ != "expected_exit"@,
        "allow_heap_leak"@ != "allow_mapping_leak"@,
        "allow_heap_leak"@ != "name"@,
        "allow_heap_leak"@ != "expected_exit"@,
        "allow_mapping_leak"@ != "name"@,
        "allow_mapping_leak"@ != "expected_exit"@,
        "name"@ != "expected_exit"@,
{
    reveal_strlit("focus");
    reveal_strlit("x");
    reveal_strlit("f");
    reveal_strlit("ignore");
    reveal_strlit("i");
    reveal_strlit("multiprocessor");
    reveal_strlit("mp");
    reveal_strlit("allow_frame_leak");
    reveal_strlit("allow_page_leak");
    reveal_strlit("allow_heap_leak");
    reveal_strlit("allow_mapping_leak");
    reveal_strlit("name");
    reveal_strlit("expected_exit");
    assert("focus"@.len() != "x"@.len());
    assert("focus"@.len() != "f"@.len());
    assert("focus"@.len() != "ignore"@.len());
    assert("focus"@.len() != "i"@.len());
    assert("focus"@.len() != "multiprocessor"@.len());
    assert("focus"@.len() != "mp"@.len());
    assert("focus"@.len() != "allow_frame_leak"@.len());
    assert("focus"@.len() != "allow_page_leak"@.len());
    assert("focus"@.len() != "allow_heap_leak"@.len());
    assert("focus"@.len() != "allow_mapping_leak"@.len());
    assert("focus"@.len() != "name"@.len());
    assert("focus"@.len() != "expected_exit"@.len());
    assert("x"@[0] != "f"@[0]);
    assert("x"@.len() != "ignore"@.len());
    assert("x"@[0] != "i"@[0]);
    assert("x"@.len() != "multiprocessor"@.len());
    assert("x"@.len() != "mp"@.len());
    assert("x"@.len() != "allow_frame_leak"@.len());
    assert("x"@.len() != "allow_page_leak"@.len());
    assert("x"@.len() != "allow_heap_leak"@.len());
    assert("x"@.len() != "allow_mapping_leak"@.len());
    assert("x"@.len() != "name"@.len());
    assert("x"@.len() != "expected_exit"@.len());
    assert("f"@.len() != "ignore"@.len());
    assert("f"@[0] != "i"@[0]);
    assert("f"@.len() != "multiprocessor"@.len());
    assert("f"@.len() != "mp"@.len());
    assert("f"@.len() != "allow_frame_leak"@.len());
    assert("f"@.len() != "allow_page_leak"@.len());
    assert("f"@.len() != "allow_heap_leak"@.len());
    assert("f"@.len() != "allow_mapping_leak"@.len());
    assert("f"@.len() != "name"@.len());
    assert("f"@.len() != "expected_exit"@.len());
    assert("ignore"@.len() != "i"@.len());
    assert("ignore"@.len() != "multiprocessor"@.len());
    assert("ignore"@.len() != "mp"@.len());
    assert("ignore"@.len() != "allow_frame_leak"@.len());
    assert("ignore"@.len() != "allow_page_leak"@.len());
    assert("ignore"@.len() != "allow_heap_leak"@.len());
    assert("ignore"@.len() != "allow_mapping_leak"@.len());
    assert("ignore"@.len() != "name"@.len());
    assert("ignore"@.len() != "expected_exit"@.len());
    assert("i"@.len() != "multiprocessor"@.len());
    assert("i"@.len() != "mp"@.len());
    assert("i"@.len() != "allow_frame_leak"@.len());
    assert("i"@.len() != "allow_page_leak"@.len());
    assert("i"@.len() != "allow_heap_leak"@.len());
    assert("i"@.len() != "allow_mapping_leak"@.len());
    assert("i"@.len() != "name"@.len());
    assert("i"@.len() != "expected_exit"@.len());
    assert("multiprocessor"@.len() != "mp"@.len());
    assert("multiprocessor"@.len() != "allow_frame_leak"@.len());
    assert("multiprocessor"@.len() != "allow_page_leak"@.len());
    assert("multiprocessor"@.len() != "allow_heap_leak"@.len());
    assert("multiprocessor"@.len() != "allow_mapping_leak"@.len());
    assert("multiprocessor"@.len() != "name"@.len());
    assert("multiprocessor"@.len() != "expected_exit"@.len());
    assert("mp"@.len() != "allow_frame_leak"@.len());
    assert("mp"@.len() != "allow_page_leak"@.len());
    assert("mp"@.len() != "allow_heap_leak"@.len());
    assert("mp"@.len() != "allow_mapping_leak"@.len());
    assert("mp"@.len() != "name"@.len());
    assert("mp"@.len() != "expected_exit"@.len());
    assert("allow_frame_leak"@.len() != "allow_page_leak"@.len());
    assert("allow_frame_leak"@.len() != "allow_heap_leak"@.len());
    assert("allow_frame_leak"@.len() != "allow_mapping_leak"@.len());
    assert("allow_frame_leak"@.len() != "name"@.len());
    assert("allow_frame_leak"@.len() != "expected_exit"@.len());
    assert("allow_page_leak"@[6] != "allow_heap_leak"@[6]);
    assert("allow_page_leak"@.len() != "allow_mapping_leak"@.len());
    assert("allow_page_leak"@.len() != "name"@.len());
    assert("allow_page_leak"@.len() != "expected_exit"@.len());
    assert("allow_heap_leak"@.len() != "allow_mapping_leak"@.len());
    assert("allow_heap_leak"@.len() != "name"@.len());
    assert("allow_heap_leak"@.len() != "expected_exit"@.len());
    assert("allow_mapping_leak"@.len() != "name"@.len());
    assert("allow_mapping_leak"@.len() != "expected_exit"@.len());
    assert("name"@.len() != "expected_exit"@.len());
}

/// The identifiers of the flags: `focus`, `x` and `f` name the focus flag,
/// `ignore` and `i` the ignore flag, `multiprocessor` and `mp` the
/// multiprocessor flag, and each leak allowance is named by the field it sets.
/// The keywords `name` and `expected_exit` name no flag.
pub proof fn lemma_flag_names()
    ensures
        spec_flag_of("focus"@) == Some(Flag::Focus),
        spec_flag_of("x"@) == Some(Flag::Focus),
        spec_flag_of("f"@) == Some(Flag::Focus),
        spec_flag_of("ignore"@) == Some(Flag::Ignore),
        spec_flag_of("i"@) == Some(Flag::Ignore),
        spec_flag_of("multiprocessor"@) == Some(Flag::Multiprocessor),
        spec_flag_of("mp"@) == Some(Flag::Multiprocessor),
        spec_flag_of("allow_frame_leak"@) == Some(Flag::AllowFrameLeak),
        spec_flag_of("allow_page_leak"@) == Some(Flag::AllowPageLeak),
        spec_flag_of("allow_heap_leak"@) == Some(Flag::AllowHeapLeak),
        spec_flag_of("allow_mapping_leak"@) == Some(Flag::AllowMappingLeak),
        spec_flag_of("name"@) is None,
        spec_flag_of("expected_exit"@) is None,
{
    reveal_strlit("focus");
    reveal_strlit("x");
    reveal_strlit("f");
    reveal_strlit("ignore");
    reveal_strlit("i");
    reveal_strlit("multiprocessor");
    reveal_strlit("mp");
    reveal_strlit("allow_frame_leak");
    reveal_strlit("allow_page_leak");
    reveal_strlit("allow_heap_leak");
    reveal_strlit("allow_mapping_leak");
    reveal_strlit("name");
    reveal_strlit("expected_exit");
    lemma_argument_names_differ();
}

/// A flag given alone sets exactly the field of the same name, every other
/// argument keeping its default.
pub proof fn lemma_parse_single_flag(ident: String)
    ensures
        ident@ == "focus"@ ==> spec_parse_from(seq![ArgToken::Ident(ident)], 0, TestArgs::spec_default())
            == Ok::<TestArgs, ArgsError>(TestArgs { focus: true, ..TestArgs::spec_default() }),
        ident@ == "x"@ ==> spec_parse_from(seq![ArgToken::Ident(ident)], 0, TestArgs::spec_default())
            == Ok::<TestArgs, ArgsError>(TestArgs { focus: true, ..TestArgs::spec_default() }),
        ident@ == "f"@ ==> spec_parse_from(seq![ArgToken::Ident(ident)], 0, TestArgs::spec_default())
            == Ok::<TestArgs, ArgsError>(TestArgs { focus: true, ..TestArgs::spec_default() }),
        ident@ == "ignore"@ ==> spec_parse_from(seq![ArgToken::Ident(ident)], 0, TestArgs::spec_default())
            == Ok::<TestArgs, ArgsError>(TestArgs { ignore: true, ..TestArgs::spec_default() }),
        ident@ == "i"@ ==> spec_parse_from(seq![ArgToken::Ident(ident)], 0, TestArgs::spec_default())
            == Ok::<TestArgs, ArgsError>(TestArgs { ignore: true, ..TestArgs::spec_default() }),
        ident@ == "multiprocessor"@ ==> spec_parse_from(seq![ArgToken::Ident(ident)], 0, TestArgs::spec_default())
            == Ok::<TestArgs, ArgsError>(TestArgs { multiprocessor: true, ..TestArgs::spec_default() }),
        ident@ == "mp"@ ==> spec_parse_from(seq![ArgToken::Ident(ident)], 0, TestArgs::spec_default())
            == Ok::<TestArgs, ArgsError>(TestArgs { multiprocessor: true, ..TestArgs::spec_default() }),
        ident@ == "allow_frame_leak"@ ==> spec_parse_from(seq![ArgToken::Ident(ident)], 0, TestArgs::spec_default())
            == Ok::<TestArgs, ArgsError>(TestArgs { allow_frame_leak: true, ..TestArgs::spec_default() }),
        ident@ == "allow_page_leak"@ ==> spec_parse_from(seq![ArgToken::Ident(ident)], 0, TestArgs::spec_default())
            == Ok::<TestArgs, ArgsError>(TestArgs { allow_page_leak: true, ..TestArgs::spec_default() }),
        ident@ == "allow_heap_leak"@ ==> spec_parse_from(seq![ArgToken::Ident(ident)], 0, TestArgs::spec_default())
            == Ok::<TestArgs, ArgsError>(TestArgs { allow_heap_leak: true, ..TestArgs::spec_default() }),
        ident@ == "allow_mapping_leak"@ ==> spec_parse_from(seq![ArgToken::Ident(ident)], 0, TestArgs::spec_default())
            == Ok::<TestArgs, ArgsError>(TestArgs { allow_mapping_leak: true, ..TestArgs::spec_default() }),
{
    reveal_strlit("focus");
    reveal_strlit("x");
    reveal_strlit("f");
    reveal_strlit("ignore");
    reveal_strlit("i");
    reveal_strlit("multiprocessor");
    reveal_strlit("mp");
    reveal_strlit("allow_frame_leak");
    reveal_strlit("allow_page_leak");
    reveal_strlit("allow_heap_leak");
    reveal_strlit("allow_mapping_leak");
    reveal_strlit("name");
    reveal_strlit("expected_exit");
    lemma_argument_names_differ();
    let tokens = seq![ArgToken::Ident(ident)];
    assert(tokens[0] == ArgToken::Ident(ident));
    if spec_flag_of(ident@) is Some {
        assert(spec_parse_from(tokens, 1, TestArgs::spec_default().with_flag(spec_flag_of(ident@)->0))
            == Ok::<TestArgs, ArgsError>(TestArgs::spec_default().with_flag(spec_flag_of(ident@)->0)));
    }
}

/// Whether `ident` names no argument: neither `name`, `expected_exit` nor a flag.
pub open spec fn spec_unknown_ident(ident: Seq<char>) -> bool {
    !(ident == "name"@ || ident == "expected_exit"@) && spec_flag_of(ident) is None
}

/// Whether the argument that `ident` names is already given in `args`.
pub open spec fn spec_given(args: TestArgs, ident: Seq<char>) -> bool {
    if ident == "name"@ || ident == "expected_exit"@ {
        if ident == "name"@ {
            args.name is Some
        } else {
            args.expected_exit is Some
        }
    } else {
        spec_flag_of(ident) matches Some(flag) && args.has_flag(flag)
    }
}

/// Whether identifiers `a` and `b` give the same argument: the same keyword,
/// or two names of one flag.
pub open spec fn spec_same_argument(a: Seq<char>, b: Seq<char>) -> bool {
    if a == "name"@ || a == "expected_exit"@ {
        a == b
    } else {
        !(b == "name"@ || b == "expected_exit"@) && spec_flag_of(a) is Some && spec_flag_of(a)
            == spec_flag_of(b)
    }
}

/// Whether an identifier is refused where `args` were read before: it
/// names no argument, or one that is already given.
pub open spec fn spec_refused(args: TestArgs, ident: Seq<char>) -> bool {
    spec_unknown_ident(ident) || spec_given(args, ident)
}

/// Whether the token at `k` is refused where an argument should start and
/// `args` were read before: a refused identifier, or an expression that
/// starts with an identifier and does not follow a `:`.
pub open spec fn spec_refused_token(tokens: Seq<ArgToken>, k: int, args: TestArgs) -> bool {
    match tokens[k] {
        ArgToken::Ident(id) => spec_refused(args, id@),
        ArgToken::Expr(e) => spec_starts_with_ident(e) && (k == 0 || !(tokens[k - 1] is Colon)),
        _ => false,
    }
}

/// Reading from `j` on fails once it reaches position `k`, where the token
/// is refused: whatever is read before keeps it refused, and no keyword
/// takes it as its value.
proof fn lemma_parse_fails_at(tokens: Seq<ArgToken>, j: int, args: TestArgs, k: int)
    requires
        0 <= j <= k < tokens.len(),
        spec_refused_token(tokens, k, args),
    ensures
        spec_parse_from(tokens, j, args) is Err,
    decreases k - j,
{
    if j < k {
        match tokens[j] {
            ArgToken::Comma => lemma_parse_fails_at(tokens, j + 1, args, k),
            ArgToken::Colon => {},
            ArgToken::Expr(e) => if args.name is None {
                lemma_parse_fails_at(tokens, j + 1, TestArgs { name: Some(e), ..args }, k);
            } else if args.expected_exit is None {
                lemma_parse_fails_at(
                    tokens,
                    j + 1,
                    TestArgs { expected_exit: Some(e), ..args },
                    k,
                );
            },
            ArgToken::Ident(ident) => if ident@ == "name"@ || ident@ == "expected_exit"@ {
                let is_name = ident@ == "name"@;
                if !(is_name && args.name is Some) && !(!is_name && args.expected_exit is Some)
                    && j + 1 < tokens.len() && tokens[j + 1] is Colon && j + 2 < tokens.len()
                    && tokens[j + 2] is Expr {
                    let e = tokens[j + 2]->Expr_0;
                    let next = if is_name {
                        TestArgs { name: Some(e), ..args }
                    } else {
                        TestArgs { expected_exit: Some(e), ..args }
                    };
                    lemma_parse_fails_at(tokens, j + 3, next, k);
                }
            } else {
                if let Some(flag) = spec_flag_of(ident@) {
                    if !args.has_flag(flag) {
                        lemma_parse_fails_at(tokens, j + 1, args.with_flag(flag), k);
                    }
                }
            },
        }
    }
}

/// An identifier that names no argument makes the kernel test arguments
/// fail to read, wherever it stands: whatever came before either failed
/// already or is passed over.
pub proof fn lemma_parse_refuses_unknown(tokens: Seq<ArgToken>, i: int)
    requires
        0 <= i < tokens.len(),
        tokens[i] matches ArgToken::Ident(id) && spec_unknown_ident(id@),
    ensures
        spec_parse_from(tokens, 0, TestArgs::spec_default()) is Err,
{
    lemma_parse_fails_at(tokens, 0, TestArgs::spec_default(), i);
}

/// An expression that starts with an identifier, such as the path
/// `TestExitState::Panic`, makes the kernel test arguments fail to read
/// wherever it stands in the place of an argument, that is not after a `:`.
pub proof fn lemma_parse_refuses_identifier_expr(tokens: Seq<ArgToken>, i: int)
    requires
        0 <= i < tokens.len(),
        tokens[i] matches ArgToken::Expr(e) && spec_starts_with_ident(e),
        i == 0 || !(tokens[i - 1] is Colon),
    ensures
        spec_parse_from(tokens, 0, TestArgs::spec_default()) is Err,
{
    lemma_parse_fails_at(tokens, 0, TestArgs::spec_default(), i);
}

/// Reading from `j` on fails where the identifiers at `i` and `k` give the
/// same argument.
proof fn lemma_parse_fails_at_repeat(
    tokens: Seq<ArgToken>,
    j: int,
    args: TestArgs,
    i: int,
    k: int,
)
    requires
        0 <= j <= i < k < tokens.len(),
        tokens[i] matches ArgToken::Ident(a) && tokens[k] matches ArgToken::Ident(b)
            && spec_same_argument(a@, b@),
    ensures
        spec_parse_from(tokens, j, args) is Err,
    decreases i - j,
{
    let a = tokens[i]->Ident_0;
    let b = tokens[k]->Ident_0;
    match tokens[j] {
        ArgToken::Comma => lemma_parse_fails_at_repeat(tokens, j + 1, args, i, k),
        ArgToken::Colon => {},
        ArgToken::Expr(e) => if args.name is None {
            lemma_parse_fails_at_repeat(tokens, j + 1, TestArgs { name: Some(e), ..args }, i, k);
        } else if args.expected_exit is None {
            lemma_parse_fails_at_repeat(
                tokens,
                j + 1,
                TestArgs { expected_exit: Some(e), ..args },
                i,
                k,
            );
        },
        ArgToken::Ident(ident) => if ident@ == "name"@ || ident@ == "expected_exit"@ {
            let is_name = ident@ == "name"@;
            if !(is_name && args.name is Some) && !(!is_name && args.expected_exit is Some)
                && j + 1 < tokens.len() && tokens[j + 1] is Colon && j + 2 < tokens.len()
                && tokens[j + 2] is Expr {
                let e = tokens[j + 2]->Expr_0;
                let next = if is_name {
                    TestArgs { name: Some(e), ..args }
                } else {
                    TestArgs { expected_exit: Some(e), ..args }
                };
                if j == i {
                    lemma_parse_fails_at(tokens, j + 3, next, k);
                } else {
                    lemma_parse_fails_at_repeat(tokens, j + 3, next, i, k);
                }
            }
        } else {
            if let Some(flag) = spec_flag_of(ident@) {
                if !args.has_flag(flag) {
                    if j == i {
                        lemma_parse_fails_at(tokens, j + 1, args.with_flag(flag), k);
                    } else {
                        lemma_parse_fails_at_repeat(tokens, j + 1, args.with_flag(flag), i, k);
                    }
                }
            }
        },
    }
}

/// Giving one argument twice, by the same keyword or by two names of one
/// flag, makes the kernel test arguments fail to read.
pub proof fn lemma_parse_refuses_repeat(tokens: Seq<ArgToken>, i: int, k: int)
    requires
        0 <= i < k < tokens.len(),
        tokens[i] matches ArgToken::Ident(a) && tokens[k] matches ArgToken::Ident(b)
            && spec_same_argument(a@, b@),
    ensures
        spec_parse_from(tokens, 0, TestArgs::spec_default()) is Err,
{
    lemma_parse_fails_at_repeat(tokens, 0, TestArgs::spec_default(), i, k);
}

/// The parts of a test function's signature that decide its variance.
#[derive(Debug, Clone, Copy, PartialEq, Eq, Structural)]
pub struct SignatureShape {
    /// The function is `unsafe`
    pub is_unsafe: bool,
    /// The function has generic parameters
    pub has_generics: bool,
    /// The number of parameters
    pub input_count: usize,
}

/// The reasons a test function is refused.
#[derive(Debug, Clone, Copy, PartialEq, Eq, Structural)]
pub enum SignatureError {
    /// Test function must not be unsafe
    Unsafe,
    /// Test function must follow one of the variances of kernel test functions
    NoVariance,
}

impl TestFunctionVariance {
    /// The variance of a test function with the signature `shape`: a
    /// function without parameters is normal, one with a single parameter
    /// takes a barrier. Unsafe and generic functions, and functions with more
    /// parameters, are refused.
    pub fn from_signature(shape: SignatureShape) -> (r: Result<Self, SignatureError>)
        ensures
            shape.is_unsafe ==> r == Err::<Self, SignatureError>(SignatureError::Unsafe),
            !shape.is_unsafe && shape.has_generics ==> r == Err::<Self, SignatureError>(
                SignatureError::NoVariance,
            ),
            !shape.is_unsafe && !shape.has_generics ==> r == (if shape.input_count == 0 {
                Ok(TestFunctionVariance::Normal)
            } else if shape.input_count == 1 {
                Ok(TestFunctionVariance::MPBarrier)
            } else {
                Err(SignatureError::NoVariance)
            }),
    {
        if shape.is_unsafe {
            return Err(SignatureError::Unsafe);
        }
        if shape.has_generics {
            return Err(SignatureError::NoVariance);
        }
        match shape.input_count {
            0 => Ok(TestFunctionVariance::Normal),
            1 => Ok(TestFunctionVariance::MPBarrier),
            _ => Err(SignatureError::NoVariance),
        }
    }
}

/// The arguments of the plain test attribute: the name and the expected exit,
/// by keyword or as bare expressions, and the flags `focus` and `ignore`.
/// Unlike the kernel test attribute, it takes no commas.
#[derive(Debug, Clone, PartialEq, Eq)]
pub struct Args {
    /// The name of the test, if given
    pub name: Option<ArgExpr>,
    /// The expected exit, if given
    pub expected_exit: Option<ArgExpr>,
    /// `focus`, `x` or `f`
    pub focus: bool,
    /// `ignore` or `i`
    pub ignore: bool,
}

impl Args {
    /// The arguments of a test that gives none.
    pub open spec fn spec_default() -> Self {
        Args { name: None, expected_exit: None, focus: false, ignore: false }
    }
}

/// The arguments of the plain test attribute read from `tokens` from position
/// `i` on, where `args` were read before; the first problem met in reading
/// order is reported. Punctuation where an argument starts is read as an
/// expression, which it cannot be; a bare expression that starts with an
/// identifier is refused.
pub open spec fn spec_parse_plain_from(tokens: Seq<ArgToken>, i: int, args: Args) -> Result<
    Args,
    ArgsError,
>
    decreases tokens.len() - i,
{
    if i < 0 || i >= tokens.len() {
        Ok(args)
    } else {
        match tokens[i] {
            ArgToken::Comma => Err(ArgsError::ExpectedExpr),
            ArgToken::Colon => Err(ArgsError::ExpectedExpr),
            ArgToken::Expr(e) => if spec_starts_with_ident(e) {
                Err(ArgsError::IdentifierExpr)
            } else if args.name is None {
                spec_parse_plain_from(tokens, i + 1, Args { name: Some(e), ..args })
            } else if args.expected_exit is None {
                spec_parse_plain_from(tokens, i + 1, Args { expected_exit: Some(e), ..args })
            } else {
                Err(ArgsError::TooManyValues)
            },
            ArgToken::Ident(ident) => if ident@ == "name"@ || ident@ == "expected_exit"@ {
                let is_name = ident@ == "name"@;
                if is_name && args.name is Some {
                    Err(ArgsError::NameTwice)
                } else if !is_name && args.expected_exit is Some {
                    Err(ArgsError::ExpectedExitTwice)
                } else if i + 1 >= tokens.len() || !(tokens[i + 1] is Colon) {
                    Err(ArgsError::ExpectedColon)
                } else if i + 2 >= tokens.len() || !(tokens[i + 2] is Expr) {
                    Err(ArgsError::ExpectedExpr)
                } else {
                    let e = tokens[i + 2]->Expr_0;
                    spec_parse_plain_from(
                        tokens,
                        i + 3,
                        if is_name {
                            Args { name: Some(e), ..args }
                        } else {
                            Args { expected_exit: Some(e), ..args }
                        },
                    )
                }
            } else if spec_flag_of(ident@) == Some(Flag::Focus) {
                if args.focus {
                    Err(ArgsError::FlagTwice(ident))
                } else {
                    spec_parse_plain_from(tokens, i + 1, Args { focus: true, ..args })
                }
            } else if spec_flag_of(ident@) == Some(Flag::Ignore) {
                if args.ignore {
                    Err(ArgsError::FlagTwice(ident))
                } else {
                    spec_parse_plain_from(tokens, i + 1, Args { ignore: true, ..args })
                }
            } else {
                Err(ArgsError::UnknownArgument(ident))
            },
        }
    }
}

impl Args {
    /// Reads the arguments of the plain test attribute, see
    /// [spec_parse_plain_from].
    pub fn parse(tokens: Vec<ArgToken>) -> (r: Result<Args, ArgsError>)
        ensures
            r == spec_parse_plain_from(tokens@, 0, Args::spec_default()),
    {
        let ghost all = tokens@;
        let mut rest = tokens;
        let mut args = Args { name: None, expected_exit: None, focus: false, ignore: false };
        let ghost mut i: int = 0;
        proof {
            assert(all.skip(0) =~= all);
            reveal_strlit("name");
            reveal_strlit("expected_exit");
        }
        while rest.len() > 0
            invariant
                all == tokens@,
                0 <= i <= all.len(),
                rest@ == all.skip(i),
                spec_parse_plain_from(all, i, args) == spec_parse_plain_from(all, 0, Args::spec_default()),
            decreases rest@.len(),
        {
            let token = rest.remove(0);
            proof {
                assert(all[i] == token);
                assert(rest@ =~= all.skip(i + 1));
            }
            match token {
                ArgToken::Comma => {
                    return Err(ArgsError::ExpectedExpr);
                },
                ArgToken::Colon => {
                    return Err(ArgsError::ExpectedExpr);
                },
                ArgToken::Expr(e) => {
                    if starts_with_ident(&e) {
                        return Err(ArgsError::IdentifierExpr);
                    }
                    if args.name.is_none() {
                        args.name = Some(e);
                    } else if args.expected_exit.is_none() {
                        args.expected_exit = Some(e);
                    } else {
                        return Err(ArgsError::TooManyValues);
                    }
                    proof {
                        i = i + 1;
                    }
                },
                ArgToken::Ident(ident) => {
                    let is_name = same_text(&ident, "name");
                    if is_name || same_text(&ident, "expected_exit") {
                        if is_name && args.name.is_some() {
                            return Err(ArgsError::NameTwice);
                        }
                        if !is_name && args.expected_exit.is_some() {
                            return Err(ArgsError::ExpectedExitTwice);
                        }
                        if rest.len() == 0 || !matches!(rest[0], ArgToken::Colon) {
                            return Err(ArgsError::ExpectedColon);
                        }
                        let _colon = rest.remove(0);
                        proof {
                            assert(rest@ =~= all.skip(i + 2));
                        }
                        if rest.len() == 0 {
                            return Err(ArgsError::ExpectedExpr);
                        }
                        let value = rest.remove(0);
                        proof {
                            assert(all[i + 2] == value);
                            assert(rest@ =~= all.skip(i + 3));
                        }
                        match value {
                            ArgToken::Expr(e) => {
                                if is_name {
                                    args.name = Some(e);
                                } else {
                                    args.expected_exit = Some(e);
                                }
                            },
                            _ => {
                                return Err(ArgsError::ExpectedExpr);
                            },
                        }
                        proof {
                            i = i + 3;
                        }
                    } else {
                        match flag_of(&ident) {
                            Some(Flag::Focus) => {
                                if args.focus {
                                    return Err(ArgsError::FlagTwice(ident));
                                }
                                args.focus = true;
                            },
                            Some(Flag::Ignore) => {
                                if args.ignore {
                                    return Err(ArgsError::FlagTwice(ident));
                                }
                                args.ignore = true;
                            },
                            _ => {
                                return Err(ArgsError::UnknownArgument(ident));
                            },
                        }
                        proof {
                            i = i + 1;
                        }
                    }
                },
            }
        }
        Ok(args)
    }
}

/// The arguments of the multitest attribute.
#[derive(Debug, Clone, PartialEq, Eq)]
pub struct MultiTestArgs {
    /// The condition under which the tests are compiled, if given
    pub cfg: Option<ArgExpr>,
}

/// The arguments of the multitest attribute read from `tokens` from position
/// `i` on, where `cfg` was read before: `cfg: <expr>` at most once, with
/// commas skipped; the first problem met in reading order is reported.
pub open spec fn spec_parse_multitest_from(
    tokens: Seq<ArgToken>,
    i: int,
    cfg: Option<ArgExpr>,
) -> Result<MultiTestArgs, ArgsError>
    decreases tokens.len() - i,
{
    if i < 0 || i >= tokens.len() {
        Ok(MultiTestArgs { cfg })
    } else {
        match tokens[i] {
            ArgToken::Comma => spec_parse_multitest_from(tokens, i + 1, cfg),
            ArgToken::Ident(ident) => if ident@ == "cfg"@ {
                if cfg is Some {
                    Err(ArgsError::CfgTwice)
                } else if i + 1 >= tokens.len() || !(tokens[i + 1] is Colon) {
                    Err(ArgsError::ExpectedColon)
                } else if i + 2 >= tokens.len() || !(tokens[i + 2] is Expr) {
                    Err(ArgsError::ExpectedExpr)
                } else {
                    spec_parse_multitest_from(tokens, i + 3, Some(tokens[i + 2]->Expr_0))
                }
            } else {
                Err(ArgsError::UnknownArgument(ident))
            },
            _ => Err(ArgsError::UnexpectedArgument),
        }
    }
}

impl MultiTestArgs {
    /// Reads the arguments of the multitest attribute, see
    /// [spec_parse_multitest_from].
    pub fn parse(tokens: Vec<ArgToken>) -> (r: Result<MultiTestArgs, ArgsError>)
        ensures
            r == spec_parse_multitest_from(tokens@, 0, None),
    {
        let ghost all = tokens@;
        let mut rest = tokens;
        let mut cfg: Option<ArgExpr> = None;
        let ghost mut i: int = 0;
        proof {
            assert(all.skip(0) =~= all);
            reveal_strlit("cfg");
        }
        while rest.len() > 0
            invariant
                all == tokens@,
                0 <= i <= all.len(),
                rest@ == all.skip(i),
                spec_parse_multitest_from(all, i, cfg) == spec_parse_multitest_from(all, 0, None),
            decreases rest@.len(),
        {
            let token = rest.remove(0);
            proof {
                assert(all[i] == token);
                assert(rest@ =~= all.skip(i + 1));
            }
            match token {
                ArgToken::Comma => {
                    proof {
                        i = i + 1;
                    }
                },
                ArgToken::Ident(ident) => {
                    if !same_text(&ident, "cfg") {
                        return Err(ArgsError::UnknownArgument(ident));
                    }
                    if cfg.is_some() {
                        return Err(ArgsError::CfgTwice);
                    }
                    if rest.len() == 0 || !matches!(rest[0], ArgToken::Colon) {
                        return Err(ArgsError::ExpectedColon);
                    }
                    let _colon = rest.remove(0);
                    proof {
                        assert(rest@ =~= all.skip(i + 2));
                    }
                    if rest.len() == 0 {
                        return Err(ArgsError::ExpectedExpr);
                    }
                    let value = rest.remove(0);
                    proof {
                        assert(all[i + 2] == value);
                        assert(rest@ =~= all.skip(i + 3));
                    }
                    match value {
                        ArgToken::Expr(e) => {
                            cfg = Some(e);
                        },
                        _ => {
                            return Err(ArgsError::ExpectedExpr);
                        },
                    }
                    proof {
                        i = i + 3;
                    }
                },
                _ => {
                    return Err(ArgsError::UnexpectedArgument);
                },
            }
        }
        Ok(MultiTestArgs { cfg })
    }
}

} // verus!
