use wasabi::testing::args::{Args, MultiTestArgs};
use wasabi::iter::IterExt;
use wasabi::sync::barrier::{
    all_arrived, gate_open, others_left, Barrier, MemoryOrdering, TimeoutCheck, TIMEOUT_FREE_CHECKS,
};
use wasabi::testing::args::{
    flag_of, starts_with_ident, ArgExpr, ArgToken, ArgsError, Flag, TestArgs,
    SignatureError, SignatureShape,
};
use wasabi::testing::{
    DebugErrResultExt, KernelTestError, SourceLocation, TestFunctionVariance, TestUnwrapExt,
};
use wasabi::text::{decimal_len, parse_unsigned, push_decimal, push_zero_padded};
use wasabi::types::coreid::CoreId;
use wasabi::types::duration::Duration;
use wasabi::types::time::{TscDuration, TscTimestamp};

#[test]
fn duration_display_text() {
    assert_eq!(Duration::new_millis(1500).to_string(), "01.500s");
    assert_eq!(Duration::new_micros(1_234_567).to_string(), "01.234_567s");
    assert_eq!(Duration::new_micros(5).to_string(), "005\u{b5}s");
    assert_eq!(Duration::new_millis(42).to_string(), "042ms");
    assert_eq!(Duration::new_seconds(0).to_string(), "0s");
    assert_eq!(Duration::new_hours(1).to_string(), "01:00:00.000h");
    assert_eq!(Duration::new_minutes(90).to_string(), "01:30:00.000h");
    assert_eq!(Duration::new_seconds(61).to_string(), "01:01.000m");
}

#[test]
fn duration_debug_text() {
    assert_eq!(Duration::new_millis(12).debug_string(), "12ms");
    assert_eq!(Duration::new_hours(3).debug_string(), "3h");
    assert_eq!(Duration::new_micros(7).debug_string(), "7\u{b5}s");
}

#[test]
fn duration_conversions() {
    assert_eq!(Duration::new_minutes(120).to_hours().as_u64(), 2);
    assert!(matches!(Duration::new_minutes(120).to_hours(), Duration::Hours(2)));
    assert_eq!(Duration::new_seconds(3).to_millis().as_u64(), 3000);
    assert_eq!(Duration::new_millis(2999).to_seconds().as_u64(), 2);
    assert_eq!(Duration::new_hours(1).to_minutes().as_u64(), 60);
    assert_eq!(Duration::new_millis(5).to_micros().as_u64(), 5000);
}

#[test]
fn duration_equality_and_order() {
    assert!(Duration::new_seconds(1) == Duration::new_millis(1000));
    assert!(Duration::new_hours(1) == Duration::new_minutes(60));
    assert!(Duration::new_seconds(1) != Duration::new_millis(1001));
    assert_eq!(
        Duration::new_minutes(1).cmp(&Duration::new_seconds(59)),
        core::cmp::Ordering::Greater
    );
    assert_eq!(
        Duration::new_micros(u64::MAX).cmp(&Duration::new_hours(u64::MAX)),
        core::cmp::Ordering::Less
    );
    assert_eq!(
        Duration::new_hours(u64::MAX).cmp(&Duration::new_micros(1)),
        core::cmp::Ordering::Greater
    );
    assert!(Duration::new_millis(3) < Duration::new_millis(4));
    // a duration too large for the smaller scale is equal to nothing there
    assert!(Duration::new_hours(u64::MAX) != Duration::new_micros(u64::MAX));
    assert!(Duration::new_hours(u64::MAX) == Duration::new_hours(u64::MAX));
}

#[test]
fn tsc_values_convert_back() {
    for t in [0u64, 1, 42, u64::MAX] {
        assert_eq!(u64::from(TscTimestamp::from(t)), t);
        assert_eq!(TscTimestamp::new(t).as_u64(), t);
    }
    for d in [i64::MIN, -7, 0, 13, i64::MAX] {
        assert_eq!(i64::from(TscDuration::from(d)), d);
    }
}

#[test]
fn tsc_arithmetic() {
    let a = TscTimestamp::new(10);
    let b = TscTimestamp::new(15);
    assert_eq!((a - b).as_i64(), -5);
    assert_eq!((b - a).as_i64(), 5);
    assert_eq!((a + TscDuration::new(7)).as_u64(), 17);
    assert_eq!((b - TscDuration::new(5)).as_u64(), 10);
    assert_eq!((TscDuration::new(3) + TscDuration::new(4)).as_i64(), 7);
    assert_eq!((TscDuration::new(3) - TscDuration::new(4)).as_i64(), -1);
    assert_eq!(TscTimestamp::from(9u64).as_u64(), 9);
    assert_eq!(TscDuration::try_from(5u64).map(|d| d.as_i64()), Ok(5));
    assert!(TscDuration::try_from(u64::MAX).is_err());
    assert!(TscDuration::try_from(i128::MAX).is_err());
}

#[test]
fn core_ids() {
    assert!(CoreId(0).is_bsp());
    assert!(!CoreId(2).is_bsp());
    assert_eq!(CoreId::from(3).get(), 3);
}

#[test]
fn barrier_keeps_its_target() {
    let barrier = Barrier::new(3);
    assert_eq!(barrier.target(), 3);
    let barrier = barrier.with_target_ordering(MemoryOrdering::SeqCst);
    assert_eq!(barrier.target(), 3);
    assert_eq!(Barrier::new(0).target(), 0);
}

#[test]
fn barrier_decisions() {
    assert!(gate_open(0, 4));
    assert!(gate_open(4, 4));
    assert!(!gate_open(2, 4));
    assert!(all_arrived(4, 4));
    assert!(!all_arrived(3, 4));
    assert!(others_left(1));
    assert!(!others_left(2));
}

#[test]
fn barrier_timeout_reads_clock_once_free_checks_are_used() {
    let mut check = TimeoutCheck::new(TscDuration::new(100));
    let mut free = 0u32;
    while !check.needs_clock() {
        assert_eq!(check.check(TscTimestamp::new(0)), Ok(()));
        free += 1;
    }
    assert_eq!(free, TIMEOUT_FREE_CHECKS - 1);
    assert_eq!(check.check(TscTimestamp::new(50)), Ok(()));
    assert_eq!(check.start.as_u64(), 50);
    assert_eq!(check.end.as_u64(), 150);
    assert_eq!(check.check(TscTimestamp::new(150)), Ok(()));
    assert_eq!(check.check(TscTimestamp::new(151)), Err(TscDuration::new(101)));
}

#[test]
fn test_errors_and_unwrapping() {
    assert_eq!(KernelTestError::Fail.message(), "TEST failed");
    assert_eq!(KernelTestError::Assert.message(), "TEST assertion failed");
    assert_eq!(Some(3u8).tunwrap(), Ok(3));
    assert_eq!(None::<u8>.tunwrap(), Err(KernelTestError::Fail));
    assert_eq!(None::<u8>.texpect("missing"), Err(KernelTestError::Fail));
    assert_eq!(Ok::<u8, &str>(4).tunwrap(), Ok(4));
    assert_eq!(Err::<u8, &str>("x").texpect("m"), Err(KernelTestError::Fail));
    assert!(matches!(Err::<u8, u8>(9).map_err_debug_display(), Err(d) if d.0 == 9));
    assert!(matches!(Ok::<u8, u8>(1).map_err_debug_display(), Ok(1)));
}

#[test]
fn source_location_text() {
    let location = SourceLocation { module: "kernel::tests", file: "src/lib.rs", line: 12, column: 5 };
    assert_eq!(location.to_string(), "src/lib.rs:12:5");
}

fn ident(s: &str) -> ArgToken {
    ArgToken::Ident(s.to_string())
}

fn path(segments: &[&str]) -> ArgExpr {
    ArgExpr::Path { leading_colon: false, segments: segments.iter().map(|s| s.to_string()).collect() }
}

#[test]
fn test_args_are_read() {
    let tokens = vec![
        ident("focus"),
        ArgToken::Comma,
        ident("name"),
        ArgToken::Colon,
        ArgToken::Expr(ArgExpr::Other("\"boot\"".to_string())),
        ArgToken::Comma,
        ident("expected_exit"),
        ArgToken::Colon,
        ArgToken::Expr(path(&["TestExitState", "Panic"])),
        ArgToken::Comma,
        ident("mp"),
    ];
    let args = TestArgs::parse(tokens).unwrap();
    assert!(args.focus);
    assert!(args.multiprocessor);
    assert!(!args.ignore);
    assert_eq!(args.name, Some(ArgExpr::Other("\"boot\"".to_string())));
    assert!(args.is_panicing());
}

#[test]
fn test_args_bare_values() {
    let rooted = ArgExpr::Path {
        leading_colon: true,
        segments: vec!["TestExitState".to_string(), "Succeed".to_string()],
    };
    let tokens = vec![
        ArgToken::Expr(ArgExpr::Other("\"t\"".to_string())),
        ArgToken::Comma,
        ArgToken::Expr(rooted.clone()),
    ];
    let args = TestArgs::parse(tokens).unwrap();
    assert_eq!(args.name, Some(ArgExpr::Other("\"t\"".to_string())));
    assert_eq!(args.expected_exit, Some(rooted));
    assert!(!args.is_panicing());
    // a bare expression that starts with an identifier is read as an
    // argument name, which it cannot be
    assert_eq!(
        TestArgs::parse(vec![ArgToken::Expr(path(&["TestExitState", "Panic"]))]),
        Err(ArgsError::IdentifierExpr)
    );
    assert_eq!(
        TestArgs::parse(vec![
            ArgToken::Expr(ArgExpr::Other("\"t\"".to_string())),
            ArgToken::Comma,
            ArgToken::Expr(path(&["TestExitState", "Succeed"])),
        ]),
        Err(ArgsError::IdentifierExpr)
    );
    assert_eq!(
        TestArgs::parse(vec![ArgToken::Expr(ArgExpr::Other("foo(1)".to_string()))]),
        Err(ArgsError::IdentifierExpr)
    );
    assert_eq!(
        TestArgs::parse(vec![ArgToken::Expr(ArgExpr::Other("true".to_string()))]),
        Err(ArgsError::IdentifierExpr)
    );
    assert_eq!(
        Args::parse(vec![ArgToken::Expr(path(&["TestExitState", "Panic"]))]),
        Err(ArgsError::IdentifierExpr)
    );
    // after `:` the same path is a value
    let args = TestArgs::parse(vec![
        ident("expected_exit"),
        ArgToken::Colon,
        ArgToken::Expr(path(&["TestExitState", "Panic"])),
    ])
    .unwrap();
    assert!(args.is_panicing());
    assert_eq!(TestArgs::parse(vec![]), Ok(TestArgs::default()));
}

#[test]
fn test_args_errors() {
    assert_eq!(
        TestArgs::parse(vec![ident("mp"), ArgToken::Comma, ident("multiprocessor")]),
        Err(ArgsError::FlagTwice("multiprocessor".to_string()))
    );
    assert_eq!(
        TestArgs::parse(vec![ident("bogus")]),
        Err(ArgsError::UnknownArgument("bogus".to_string()))
    );
    assert_eq!(
        TestArgs::parse(vec![ident("name"), ArgToken::Expr(ArgExpr::Other("1".to_string()))]),
        Err(ArgsError::ExpectedColon)
    );
    assert_eq!(
        TestArgs::parse(vec![ident("name"), ArgToken::Colon, ident("x")]),
        Err(ArgsError::ExpectedExpr)
    );
    assert_eq!(TestArgs::parse(vec![ArgToken::Colon]), Err(ArgsError::ExpectedExpr));
    let e = || ArgToken::Expr(ArgExpr::Other("1".to_string()));
    assert_eq!(TestArgs::parse(vec![e(), e(), e()]), Err(ArgsError::TooManyValues));
    assert_eq!(
        TestArgs::parse(vec![e(), ident("name"), ArgToken::Colon, e()]),
        Err(ArgsError::NameTwice)
    );
    assert_eq!(
        TestArgs::parse(vec![e(), e(), ident("expected_exit"), ArgToken::Colon, e()]),
        Err(ArgsError::ExpectedExitTwice)
    );
}

#[test]
fn test_args_refuse_unknown_and_repeated_arguments() {
    let e = |t: &str| ArgToken::Expr(ArgExpr::Other(t.to_string()));
    // an unknown identifier fails wherever it stands
    assert!(TestArgs::parse(vec![ident("f"), ArgToken::Comma, ident("foo")]).is_err());
    assert!(TestArgs::parse(vec![e("\"a\""), ArgToken::Comma, ident("mp"), ident("foo")]).is_err());
    // two names of one flag
    assert_eq!(
        TestArgs::parse(vec![ident("f"), ArgToken::Comma, ident("x")]),
        Err(ArgsError::FlagTwice("x".to_string()))
    );
    assert_eq!(
        TestArgs::parse(vec![ident("i"), ident("ignore")]),
        Err(ArgsError::FlagTwice("ignore".to_string()))
    );
    // one keyword twice
    assert_eq!(
        TestArgs::parse(vec![
            ident("name"),
            ArgToken::Colon,
            e("a"),
            ArgToken::Comma,
            ident("name"),
            ArgToken::Colon,
            e("b"),
        ]),
        Err(ArgsError::NameTwice)
    );
}

#[test]
fn test_flag_names() {
    assert_eq!(flag_of(&"x".to_string()), Some(Flag::Focus));
    assert_eq!(flag_of(&"i".to_string()), Some(Flag::Ignore));
    assert_eq!(flag_of(&"allow_heap_leak".to_string()), Some(Flag::AllowHeapLeak));
    assert_eq!(flag_of(&"name".to_string()), None);
}

#[test]
fn test_function_variances() {
    let shape = |is_unsafe, has_generics, input_count| SignatureShape {
        is_unsafe,
        has_generics,
        input_count,
    };
    assert_eq!(TestFunctionVariance::from_signature(shape(false, false, 0)), Ok(TestFunctionVariance::Normal));
    assert_eq!(
        TestFunctionVariance::from_signature(shape(false, false, 1)),
        Ok(TestFunctionVariance::MPBarrier)
    );
    assert_eq!(
        TestFunctionVariance::from_signature(shape(false, false, 2)),
        Err(SignatureError::NoVariance)
    );
    assert_eq!(TestFunctionVariance::from_signature(shape(true, false, 0)), Err(SignatureError::Unsafe));
    assert_eq!(
        TestFunctionVariance::from_signature(shape(false, true, 0)),
        Err(SignatureError::NoVariance)
    );
    assert_eq!(TestFunctionVariance::MPBarrier.name(), "MPBarrier");
}

#[test]
fn positions_of_items() {
    let mut iter = vec!['a', 'b', 'c'].with_positions();
    let first = iter.next().unwrap();
    assert_eq!((first.index, first.first, first.last, first.item), (0, true, false, 'a'));
    let second = iter.next().unwrap();
    assert_eq!((second.index, second.first, second.last, second.item), (1, false, false, 'b'));
    let third = iter.next().unwrap();
    assert_eq!((third.index, third.first, third.last, third.item), (2, false, true, 'c'));
    assert!(iter.next().is_none());
    let mut single = vec![7u8].with_positions();
    let only = single.next().unwrap();
    assert!(only.first && only.last);
}

#[test]
fn peeked_items() {
    let mut iter = vec![1u8, 2, 3].peeked();
    assert_eq!(iter.len(), 3);
    assert_eq!(iter.next(), Some((1, Some(2))));
    assert_eq!(iter.next(), Some((2, Some(3))));
    assert_eq!(iter.next(), Some((3, None)));
    assert_eq!(iter.next(), None);
    assert_eq!(iter.len(), 0);
}

#[test]
fn unsigned_numbers() {
    assert_eq!(parse_unsigned("42", 100), Some(42));
    assert_eq!(parse_unsigned("+7", 100), Some(7));
    assert_eq!(parse_unsigned("101", 100), None);
    assert_eq!(parse_unsigned("", 100), None);
    assert_eq!(parse_unsigned("+", 100), None);
    assert_eq!(parse_unsigned("4a", 100), None);
    assert_eq!(parse_unsigned("-1", 100), None);
    assert_eq!(parse_unsigned("18446744073709551615", u64::MAX), Some(u64::MAX));
    assert_eq!(parse_unsigned("18446744073709551616", u64::MAX), None);
    assert_eq!(parse_unsigned("0065535", 65535), Some(65535));
}

#[test]
fn decimal_text() {
    let mut s = String::from("n=");
    push_decimal(&mut s, 1207);
    assert_eq!(s, "n=1207");
    let mut s = String::new();
    push_zero_padded(&mut s, 7, 3);
    push_zero_padded(&mut s, 1234, 2);
    assert_eq!(s, "0071234");
    assert_eq!(decimal_len(0), 1);
    assert_eq!(decimal_len(u64::MAX), 20);
}

#[test]
fn plain_test_args() {
    let args = Args::parse(vec![
        ident("f"),
        ident("name"),
        ArgToken::Colon,
        ArgToken::Expr(ArgExpr::Other("\"t\"".to_string())),
        ident("ignore"),
    ])
    .unwrap();
    assert_eq!(
        args,
        Args {
            name: Some(ArgExpr::Other("\"t\"".to_string())),
            expected_exit: None,
            focus: true,
            ignore: true
        }
    );
    assert_eq!(
        Args::parse(vec![ident("focus"), ArgToken::Comma, ident("ignore")]),
        Err(ArgsError::ExpectedExpr)
    );
    assert_eq!(
        Args::parse(vec![ident("mp")]),
        Err(ArgsError::UnknownArgument("mp".to_string()))
    );
    assert_eq!(
        Args::parse(vec![ident("x"), ident("focus")]),
        Err(ArgsError::FlagTwice("focus".to_string()))
    );
}

#[test]
fn multitest_args() {
    let cfg = ArgToken::Expr(ArgExpr::Other("feature = \"x\"".to_string()));
    assert_eq!(
        MultiTestArgs::parse(vec![ArgToken::Comma, ident("cfg"), ArgToken::Colon, cfg.clone(), ArgToken::Comma]),
        Ok(MultiTestArgs { cfg: Some(ArgExpr::Other("feature = \"x\"".to_string())) })
    );
    assert_eq!(MultiTestArgs::parse(vec![]), Ok(MultiTestArgs { cfg: None }));
    assert_eq!(
        MultiTestArgs::parse(vec![ident("cfg"), ArgToken::Colon, cfg.clone(), ident("cfg"), ArgToken::Colon, cfg.clone()]),
        Err(ArgsError::CfgTwice)
    );
    assert_eq!(MultiTestArgs::parse(vec![cfg.clone()]), Err(ArgsError::UnexpectedArgument));
    assert_eq!(MultiTestArgs::parse(vec![ident("cfg"), cfg]), Err(ArgsError::ExpectedColon));
    assert_eq!(
        MultiTestArgs::parse(vec![ident("name")]),
        Err(ArgsError::UnknownArgument("name".to_string()))
    );
}

#[test]
fn expressions_that_start_with_an_identifier() {
    let other = |t: &str| ArgExpr::Other(t.to_string());
    assert!(starts_with_ident(&other("foo")));
    assert!(starts_with_ident(&other("_x + 1")));
    assert!(starts_with_ident(&other("Zed")));
    assert!(starts_with_ident(&other("été")));
    assert!(!starts_with_ident(&other("1")));
    assert!(!starts_with_ident(&other("\"boot\"")));
    assert!(!starts_with_ident(&other("")));
    assert!(!starts_with_ident(&other("-x")));
    assert!(starts_with_ident(&ArgExpr::Path { leading_colon: false, segments: vec!["a".to_string()] }));
    assert!(!starts_with_ident(&ArgExpr::Path { leading_colon: true, segments: vec!["a".to_string()] }));
}
