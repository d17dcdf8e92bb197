//! The command line, and where the configuration is looked for.

use vstd::prelude::*;
use vstd::string::StrSliceExecFns;

use crate::text::begins_with;
use crate::text::chars_of;
use crate::text::joined;
use crate::text::same_text;
use crate::text::stands_at;
use crate::text::texts;

verus! {

/// What the program is asked to do.
#[derive(Debug, Clone, Copy, PartialEq, Eq, Structural)]
pub enum Request {
    Version,
    Help,
    Run,
}

/// Whether a text is one of two spellings of a flag.
pub open spec fn is_flag(arg: Seq<char>, long: Seq<char>, short: Seq<char>) -> bool {
    arg == long || arg == short
}

/// Whether a flag stands among the arguments.
pub open spec fn has_flag(args: Seq<Seq<char>>, long: Seq<char>, short: Seq<char>) -> bool {
    exists|i: int| 0 <= i < args.len() && is_flag(#[trigger] args[i], long, short)
}

/// Whether a flag stands among the arguments.
fn given(args: &[String], long: &str, short: &str) -> (r: bool)
    ensures
        r == has_flag(texts(args@), long@, short@),
{
    let mut i: usize = 0;
    while i < args.len()
        invariant
            i <= args.len(),
            forall|k: int| 0 <= k < i ==> !is_flag(#[trigger] texts(args@)[k], long@, short@),
        decreases args.len() - i,
    {
        let arg = args[i].as_str();
        assert(texts(args@)[i as int] == arg@);
        if same_text(arg, long) || same_text(arg, short) {
            return true;
        }
        i = i + 1;
    }
    false
}

/// What arguments ask the program to do. Its version goes before help.
pub open spec fn request_in(args: Seq<Seq<char>>) -> Request {
    if has_flag(args, "--version"@, "-V"@) {
        Request::Version
    } else if has_flag(args, "--help"@, "-h"@) {
        Request::Help
    } else {
        Request::Run
    }
}

/// What the program is asked to do. Its version goes before help.
pub fn requested(args: &[String]) -> (r: Request)
    ensures
        r == request_in(texts(args@)),
{
    if given(args, "--version", "-V") {
        Request::Version
    } else if given(args, "--help", "-h") {
        Request::Help
    } else {
        Request::Run
    }
}

/// The flag for the configuration stands without its path.
#[derive(Debug, Clone, Copy, PartialEq, Eq, Structural)]
pub struct MissingPath;

impl MissingPath {
    /// What is said of it.
    pub fn message(&self) -> (r: String)
        ensures
            r@ == "--config requires a path argument"@,
    {
        "--config requires a path argument".to_string()
    }
}

/// The path of the configuration that the arguments name: that of the first of
/// `--config <path>` and `--config=<path>`.
pub open spec fn config_flag(args: Seq<Seq<char>>) -> Result<Option<Seq<char>>, MissingPath>
    decreases args.len(),
{
    if args.len() == 0 {
        Ok(None)
    } else if args[0] == "--config"@ {
        if args.len() > 1 {
            Ok(Some(args[1]))
        } else {
            Err(MissingPath)
        }
    } else if stands_at(args[0], 0, "--config="@) {
        Ok(Some(args[0].skip("--config="@.len() as int)))
    } else {
        config_flag(args.skip(1))
    }
}

/// The characters of an optional text.
pub open spec fn text_of(s: Option<String>) -> Option<Seq<char>> {
    match s {
        Some(t) => Some(t@),
        None => None,
    }
}

/// Parse --config <path> from CLI args.
pub fn parse_config_flag(args: &[String]) -> (r: Result<Option<String>, MissingPath>)
    ensures
        match r {
            Ok(path) => config_flag(texts(args@)) == Ok::<Option<Seq<char>>, MissingPath>(
                text_of(path),
            ),
            Err(e) => config_flag(texts(args@)) == Err::<Option<Seq<char>>, MissingPath>(e),
        },
{
    let mut i: usize = 0;
    let ghost all = texts(args@);
    assert(all.skip(0) =~= all);
    while i < args.len()
        invariant
            i <= args.len(),
            all == texts(args@),
            config_flag(all) == config_flag(all.skip(i as int)),
        decreases args.len() - i,
    {
        let arg = args[i].as_str();
        let ghost rest = all.skip(i as int);
        assert(rest[0] == arg@);
        if same_text(arg, "--config") {
            if i + 1 < args.len() {
                assert(rest[1] == args@[i + 1]@);
                return Ok(Some(args[i + 1].clone()));
            }
            return Err(MissingPath);
        }
        if begins_with(arg, "--config=") {
            let from: usize = chars_of("--config=").len();
            let to: usize = chars_of(arg).len();
            let path = arg.substring_char(from, to);
            assert(path@ =~= arg@.skip("--config="@.len() as int));
            return Ok(Some(path.to_string()));
        }
        assert(rest.skip(1) =~= all.skip(i + 1));
        i = i + 1;
    }
    Ok(None)
}

/// No configuration file was found.
#[derive(Debug)]
pub enum ConfigNotFound {
    /// The file that was named is missing.
    Named(String),
    /// No file was named, and none stands in the usual places.
    Searched,
}

/// What is said when no configuration file was found.
pub open spec fn not_found_text(e: ConfigNotFound) -> Seq<char> {
    match e {
        ConfigNotFound::Named(path) => "config file not found: "@ + path@,
        ConfigNotFound::Searched =>
            "config file not found. Searched: ssroute.conf, /etc/ssroute/ssroute.conf. Use --config <path> to specify."@,
    }
}

impl ConfigNotFound {
    /// What is said of it.
    pub fn message(&self) -> (r: String)
        ensures
            r@ == not_found_text(*self),
    {
        match self {
            ConfigNotFound::Named(path) => joined("config file not found: ", path.as_str()),
            ConfigNotFound::Searched =>
                "config file not found. Searched: ssroute.conf, /etc/ssroute/ssroute.conf. Use --config <path> to specify.".to_string(),
        }
    }
}

/// The paths that are looked at, in order: the one that was named, or else the
/// usual places.
pub open spec fn candidates(explicit: Option<Seq<char>>) -> Seq<Seq<char>> {
    match explicit {
        Some(path) => seq![path],
        None => seq!["ssroute.conf"@, "/etc/ssroute/ssroute.conf"@],
    }
}

/// The paths that are looked at, in order.
pub fn config_candidates(explicit: &Option<String>) -> (r: Vec<String>)
    ensures
        texts(r@) == candidates(text_of(*explicit)),
{
    let mut out: Vec<String> = Vec::new();
    match explicit {
        Some(path) => out.push(path.clone()),
        None => {
            out.push("ssroute.conf".to_string());
            out.push("/etc/ssroute/ssroute.conf".to_string());
        },
    }
    assert(texts(out@) =~= candidates(text_of(*explicit)));
    out
}

/// Whether `r` is the first of the candidates that is there, or says that there is
/// none.
pub open spec fn is_found(
    explicit: Option<Seq<char>>,
    present: Seq<bool>,
    r: Result<String, ConfigNotFound>,
) -> bool {
    match r {
        Ok(path) => exists|i: int|
            #![trigger present[i]]
            0 <= i < present.len() && present[i] && path@ == candidates(explicit)[i] && forall|
                k: int,
            |
                0 <= k < i ==> !present[k],
        Err(e) => {
            &&& forall|k: int| 0 <= k < present.len() ==> !present[k]
            &&& match e {
                ConfigNotFound::Named(path) => explicit == Some(path@),
                ConfigNotFound::Searched => explicit is None,
            }
        },
    }
}

/// Find the config file: explicit path > CWD > /etc/ssroute/
///
/// `present` says of each candidate whether there is such a file.
pub fn find_config(explicit: &Option<String>, present: &Vec<bool>) -> (r: Result<
    String,
    ConfigNotFound,
>)
    requires
        present@.len() == candidates(text_of(*explicit)).len(),
    ensures
        is_found(text_of(*explicit), present@, r),
{
    let paths = config_candidates(explicit);
    let mut i: usize = 0;
    assert(texts(paths@).len() == paths@.len());
    while i < paths.len()
        invariant
            i <= paths.len(),
            paths@.len() == present@.len(),
            texts(paths@) == candidates(text_of(*explicit)),
            forall|k: int| 0 <= k < i ==> !present@[k],
        decreases paths.len() - i,
    {
        if present[i] {
            assert(texts(paths@)[i as int] == paths@[i as int]@);
            return Ok(paths[i].clone());
        }
        i = i + 1;
    }
    match explicit {
        Some(path) => Err(ConfigNotFound::Named(path.clone())),
        None => Err(ConfigNotFound::Searched),
    }
}

/// Both spellings of the flag name the same path, and what stands behind it is
/// not looked at.
pub proof fn law_flag_spellings(path: Seq<char>, rest: Seq<Seq<char>>)
    ensures
        config_flag(seq!["--config"@, path] + rest) == Ok::<Option<Seq<char>>, MissingPath>(
            Some(path),
        ),
        config_flag(seq!["--config="@ + path] + rest) == Ok::<Option<Seq<char>>, MissingPath>(
            Some(path),
        ),
{
    reveal_strlit("--config");
    reveal_strlit("--config=");
    let joint = "--config="@ + path;
    assert(joint.skip("--config="@.len() as int) =~= path);
    assert(joint.subrange(0, "--config="@.len() as int) =~= "--config="@);
    assert(joint != "--config"@) by {
        if joint == "--config"@ {
            assert(joint.len() == "--config"@.len());
        }
    }
}

} // verus!
