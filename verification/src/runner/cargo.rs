//! The cargo command lines the runner builds, checks, expands and cleans the
//! kernel with, and where it keeps the latest build.

use vstd::prelude::*;

use crate::runner::args::{
    feature_name, feature_used_in, BuildOptions, CleanArgs, ExpandArgs, Feature, KernelBinary,
    Profile, Target,
};
use crate::runner::qemu::strings_view;

verus! {

/// The name of a profile as cargo knows it.
pub open spec fn profile_name(p: Profile) -> Seq<char> {
    match p {
        Profile::Dev => "dev"@,
        Profile::Release => "release"@,
    }
}

/// The profile that the options ask for.
pub open spec fn spec_profile(options: BuildOptions) -> Profile {
    match options.profile {
        Some(p) => p,
        None => if options.release {
            Profile::Release
        } else {
            Profile::Dev
        },
    }
}

/// The name of a kernel binary.
pub open spec fn binary_name(bin: KernelBinary) -> Seq<char> {
    match bin {
        KernelBinary::Wasabi => "wasabi-kernel"@,
        KernelBinary::Test => "wasabi-test"@,
    }
}

/// The names of the features, in order, of those that `keep` accepts.
pub open spec fn feature_names(features: Seq<Feature>, keep: spec_fn(Feature) -> bool) -> Seq<
    Seq<char>,
>
    decreases features.len(),
{
    if features.len() == 0 {
        Seq::empty()
    } else {
        let rest = feature_names(features.drop_last(), keep);
        if keep(features.last()) {
            rest.push(feature_name(features.last()))
        } else {
            rest
        }
    }
}

/// The feature arguments: `--no-default-features` where asked, then
/// `--all-features`, or else `--features` and the names of the features that
/// `keep` accepts, if there are any.
pub open spec fn feature_args(options: BuildOptions, keep: spec_fn(Feature) -> bool) -> Seq<
    Seq<char>,
> {
    let names = feature_names(options.features@, keep);
    (if options.no_default_features {
        seq!["--no-default-features"@]
    } else {
        Seq::empty()
    }) + if options.all_features {
        seq!["--all-features"@]
    } else if names.len() > 0 {
        seq!["--features"@] + names
    } else {
        Seq::empty()
    }
}

/// The features that apply to `bin`, or all features where `bin` is `None`.
pub open spec fn keep_for(bin: Option<KernelBinary>) -> spec_fn(Feature) -> bool {
    |f: Feature|
        match bin {
            Some(b) => feature_used_in(f, b),
            None => true,
        }
}

/// Appends `arg`.
fn push_arg(args: &mut Vec<String>, arg: &str)
    ensures
        strings_view(final(args)@) == strings_view(old(args)@).push(arg@),
{
    args.push(arg.to_owned());
    assert(strings_view(args@) =~= strings_view(old(args)@).push(arg@));
}

/// Appends the feature arguments for `bin`, or for all features where `bin`
/// is `None`.
fn push_feature_args(args: &mut Vec<String>, options: &BuildOptions, bin: Option<KernelBinary>)
    ensures
        strings_view(final(args)@) == strings_view(old(args)@) + feature_args(*options, keep_for(bin)),
{
    let ghost keep = keep_for(bin);
    let ghost start = strings_view(args@);
    if options.no_default_features {
        push_arg(args, "--no-default-features");
    }
    let ghost after_default = strings_view(args@);
    if options.all_features {
        push_arg(args, "--all-features");
        assert(strings_view(args@) =~= start + feature_args(*options, keep));
        return;
    }
    let mut names: Vec<String> = Vec::new();
    let mut k: usize = 0;
    while k < options.features.len()
        invariant
            keep == keep_for(bin),
            k <= options.features@.len(),
            strings_view(names@) == feature_names(options.features@.take(k as int), keep),
        decreases options.features@.len() - k,
    {
        let f = options.features[k];
        let used = match bin {
            Some(b) => f.used_in(&b),
            None => true,
        };
        proof {
            assert(used == keep(f));
            assert(options.features@.take(k + 1).drop_last() =~= options.features@.take(k as int));
            assert(options.features@.take(k + 1).last() == f);
        }
        if used {
            push_arg(&mut names, f.as_os_str());
        }
        k += 1;
    }
    proof {
        assert(options.features@.take(k as int) =~= options.features@);
    }
    if names.len() > 0 {
        push_arg(args, "--features");
        let ghost before = strings_view(args@);
        args.append(&mut names);
        assert(strings_view(args@) =~= before + feature_names(options.features@, keep));
    }
    assert(strings_view(args@) =~= start + feature_args(*options, keep));
}

/// The arguments of `cargo build` for the kernel binary `bin`, which puts the
/// binary into `artifact_dir`.
pub open spec fn spec_build_args(bin: KernelBinary, options: BuildOptions, artifact_dir: Seq<char>) -> Seq<
    Seq<char>,
> {
    seq![
        "build"@,
        "-p"@,
        binary_name(bin),
        "--bin"@,
        binary_name(bin),
        "-Z"@,
        "unstable-options"@,
        "--target"@,
        "x86_64-unknown-none"@,
    ] + feature_args(options, keep_for(Some(bin))) + seq![
        "--profile"@,
        profile_name(spec_profile(options)),
        "--artifact-dir"@,
        artifact_dir,
    ]
}

/// The arguments of `cargo build` for the kernel binary `bin`, which puts the
/// binary into `artifact_dir`: the package and binary, the target, the
/// features that apply to `bin`, and the profile.
pub fn build_args(bin: KernelBinary, options: &BuildOptions, artifact_dir: &str) -> (r: Vec<String>)
    ensures
        strings_view(r@) == spec_build_args(bin, *options, artifact_dir@),
{
    let mut args: Vec<String> = Vec::new();
    let name = bin.name();
    push_arg(&mut args, "build");
    push_arg(&mut args, "-p");
    push_arg(&mut args, name);
    push_arg(&mut args, "--bin");
    push_arg(&mut args, name);
    push_arg(&mut args, "-Z");
    push_arg(&mut args, "unstable-options");
    push_arg(&mut args, "--target");
    push_arg(&mut args, options.target.tripple_str());
    let ghost head = strings_view(args@);
    push_feature_args(&mut args, options, Some(bin));
    push_arg(&mut args, "--profile");
    push_arg(&mut args, options.profile().as_os_str());
    push_arg(&mut args, "--artifact-dir");
    push_arg(&mut args, artifact_dir);
    assert(strings_view(args@) =~= spec_build_args(bin, *options, artifact_dir@));
    args
}

/// The arguments of `cargo check` for the kernel binary `bin`.
pub open spec fn spec_check_args(bin: KernelBinary, options: BuildOptions) -> Seq<Seq<char>> {
    seq![
        "check"@,
        "-p"@,
        binary_name(bin),
        "--bin"@,
        binary_name(bin),
        "--target"@,
        "x86_64-unknown-none"@,
    ] + feature_args(options, keep_for(Some(bin))) + seq![
        "--profile"@,
        profile_name(spec_profile(options)),
    ]
}

/// The arguments of `cargo check` for the kernel binary `bin`.
pub fn check_args(bin: KernelBinary, options: &BuildOptions) -> (r: Vec<String>)
    ensures
        strings_view(r@) == spec_check_args(bin, *options),
{
    let mut args: Vec<String> = Vec::new();
    let name = bin.name();
    push_arg(&mut args, "check");
    push_arg(&mut args, "-p");
    push_arg(&mut args, name);
    push_arg(&mut args, "--bin");
    push_arg(&mut args, name);
    push_arg(&mut args, "--target");
    push_arg(&mut args, options.target.tripple_str());
    push_feature_args(&mut args, options, Some(bin));
    push_arg(&mut args, "--profile");
    push_arg(&mut args, options.profile().as_os_str());
    assert(strings_view(args@) =~= spec_check_args(bin, *options));
    args
}

/// Why an expansion is refused.
#[derive(Debug, Clone, Copy, PartialEq, Eq, Structural)]
pub enum ExpandError {
    /// Only one of `--lib` and `--bin` can be used at once
    LibAndBin,
}

/// The arguments of `cargo expand` that the expand command asks for, where
/// `package_path` is the path of its package.
pub open spec fn spec_expand_args(args: ExpandArgs, package_path: Seq<char>) -> Seq<Seq<char>> {
    seq!["expand"@, "--package"@, package_path] + (match args.bin {
        Some(bin) => seq!["--bin"@, bin@],
        None => if args.lib {
            seq!["--lib"@]
        } else {
            Seq::empty()
        },
    }) + seq!["--target"@, "x86_64-unknown-none"@] + feature_args(args.options, keep_for(None))
        + seq!["--profile"@, profile_name(spec_profile(args.options))] + match args.item {
        Some(item) => seq![item@],
        None => Seq::empty(),
    }
}

/// The arguments of `cargo expand` that the expand command asks for: the
/// package, the library or a binary, the target, all given features, the
/// profile and the item. Fails where both the library and a binary are asked
/// for.
pub fn expand_args(args: &ExpandArgs) -> (r: Result<Vec<String>, ExpandError>)
    ensures
        args.bin is Some && args.lib ==> r == Err::<Vec<String>, ExpandError>(ExpandError::LibAndBin),
        !(args.bin is Some && args.lib) ==> (r matches Ok(v) && strings_view(v@) == spec_expand_args(
            *args,
            args.package.spec_path(),
        )),
{
    let mut out: Vec<String> = Vec::new();
    push_arg(&mut out, "expand");
    push_arg(&mut out, "--package");
    let path = args.package.as_os_path();
    let ghost before = strings_view(out@);
    out.push(path);
    assert(strings_view(out@) =~= before.push(args.package.spec_path()));
    match &args.bin {
        Some(bin) => {
            if args.lib {
                return Err(ExpandError::LibAndBin);
            }
            push_arg(&mut out, "--bin");
            push_arg(&mut out, bin.as_str());
        },
        None => {
            if args.lib {
                push_arg(&mut out, "--lib");
            }
        },
    }
    push_arg(&mut out, "--target");
    push_arg(&mut out, args.options.target.tripple_str());
    push_feature_args(&mut out, &args.options, None);
    push_arg(&mut out, "--profile");
    push_arg(&mut out, args.options.profile().as_os_str());
    match &args.item {
        Some(item) => {
            push_arg(&mut out, item.as_str());
        },
        None => {},
    }
    assert(strings_view(out@) =~= spec_expand_args(*args, args.package.spec_path()));
    Ok(out)
}

/// The path of the latest build of the binary `bin_name`:
/// `latest/<target triple>/<profile>/<bin_name>`.
pub fn latest_path(bin_name: &str, target: Target, profile: Profile) -> (r: Vec<String>)
    ensures
        strings_view(r@) == seq![
            "latest"@,
            "x86_64-unknown-none"@,
            profile_name(profile),
            bin_name@,
        ],
{
    let mut path: Vec<String> = Vec::new();
    push_arg(&mut path, "latest");
    push_arg(&mut path, target.tripple_str());
    push_arg(&mut path, profile.as_os_str());
    push_arg(&mut path, bin_name);
    path
}

/// The name of the uefi image of a build of the binary `bin_name`.
pub fn uefi_image_name(bin_name: &str) -> (r: String)
    ensures
        r@ == bin_name@ + "-uefi.img"@,
{
    let mut name = bin_name.to_owned();
    vstd::string::StringExecFns::append(&mut name, "-uefi.img");
    name
}

/// The binary that the latest build runs: the test kernel for tests, the
/// kernel otherwise.
pub fn latest_binary(test: bool) -> (r: &'static str)
    ensures
        r@ == (if test {
            "wasabi-test"@
        } else {
            "wasabi-kernel"@
        }),
{
    if test {
        "wasabi-test"
    } else {
        "wasabi-kernel"
    }
}

/// The `cargo clean` command that the clean command stands for, if any: the
/// documentation, everything, the kernel or the test kernel, in this order
/// of precedence. Where none of these is asked for, the command removes
/// directories and cleans the workspace members instead.
pub fn clean_command(args: &CleanArgs) -> (r: Option<Vec<String>>)
    ensures
        args.docs ==> (r matches Some(v) && strings_view(v@) == seq!["clean"@, "--docs"@]),
        !args.docs && args.all ==> (r matches Some(v) && strings_view(v@) == seq!["clean"@]),
        !args.docs && !args.all && args.kernel ==> (r matches Some(v) && strings_view(v@) == seq![
            "clean"@,
            "-p"@,
            "wasabi-kernel"@,
        ]),
        !args.docs && !args.all && !args.kernel && args.test ==> (r matches Some(v) && strings_view(
            v@,
        ) == seq!["clean"@, "-p"@, "wasabi-test"@]),
        !args.docs && !args.all && !args.kernel && !args.test ==> r is None,
{
    let mut cmd: Vec<String> = Vec::new();
    assert(strings_view(cmd@) =~= Seq::<Seq<char>>::empty());
    if args.docs {
        push_arg(&mut cmd, "clean");
        push_arg(&mut cmd, "--docs");
        return Some(cmd);
    }
    if args.all {
        push_arg(&mut cmd, "clean");
        return Some(cmd);
    }
    if args.kernel {
        push_arg(&mut cmd, "clean");
        push_arg(&mut cmd, "-p");
        push_arg(&mut cmd, "wasabi-kernel");
        return Some(cmd);
    }
    if args.test {
        push_arg(&mut cmd, "clean");
        push_arg(&mut cmd, "-p");
        push_arg(&mut cmd, "wasabi-test");
        return Some(cmd);
    }
    None
}

/// The package name of the workspace member at `member`: its path with each
/// `/` replaced by `-`.
pub fn member_package(member: &str) -> (r: String)
    ensures
        r@ == member@.map_values(|c: char| if c == '/' { '-' } else { c }),
{
    let len = member.unicode_len();
    let mut r = String::new();
    let mut i: usize = 0;
    while i < len
        invariant
            len == member@.len(),
            i <= len,
            r@ == member@.take(i as int).map_values(|c: char| if c == '/' { '-' } else { c }),
        decreases len - i,
    {
        let c = member.get_char(i);
        let mapped = if c == '/' {
            '-'
        } else {
            c
        };
        crate::text::string_push(&mut r, mapped);
        proof {
            assert(member@.take(i + 1).map_values(|c: char| if c == '/' { '-' } else { c })
                =~= member@.take(i as int).map_values(|c: char| if c == '/' { '-' } else { c }).push(
                mapped,
            ));
        }
        i += 1;
    }
    assert(member@.take(len as int) =~= member@);
    r
}

} // verus!
