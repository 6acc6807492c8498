//! The command line of the server.
use crate::text::{same, views};
use vstd::prelude::*;

verus! {

/// Where `flag` first stands in `args`.
pub open spec fn flag_from(args: Seq<Seq<char>>, flag: Seq<char>, i: nat) -> Option<nat>
    decreases args.len() - i,
{
    if i >= args.len() {
        None
    } else if args[i as int] == flag {
        Some(i)
    } else {
        flag_from(args, flag, i + 1)
    }
}

/// The argument that stands behind the first `flag`.
pub open spec fn flag_value(args: Seq<Seq<char>>, flag: Seq<char>) -> Option<Seq<char>> {
    match flag_from(args, flag, 0) {
        Some(i) => if i + 1 < args.len() {
            Some(args[i as int + 1])
        } else {
            None
        },
        None => None,
    }
}

/// The argument behind the first `flag`, or else `default`.
pub open spec fn flag_or(args: Seq<Seq<char>>, flag: Seq<char>, default: Seq<char>) -> Seq<char> {
    match flag_value(args, flag) {
        Some(s) => s,
        None => default,
    }
}

fn find_flag(args: &Vec<String>, flag: &str) -> (r: Option<String>)
    ensures
        match r {
            Some(s) => flag_value(views(args@), flag@) == Some(s@),
            None => flag_value(views(args@), flag@) is None,
        },
{
    let ghost all = views(args@);
    let n: usize = args.len();
    let mut i: usize = 0;
    while i < n
        invariant
            n == args@.len(),
            i <= n,
            all == views(args@),
            flag_from(all, flag@, 0) == flag_from(all, flag@, i as nat),
        decreases n - i,
    {
        assert(all[i as int] == args@[i as int]@);
        if same(args[i].as_str(), flag) {
            if i + 1 < n {
                assert(all[i + 1] == args@[i + 1]@);
                return Some(args[i + 1].clone());
            }
            return None;
        }
        i = i + 1;
    }
    None
}

fn find_flag_or(args: &Vec<String>, flag: &str, default: &str) -> (r: String)
    ensures
        r@ == flag_or(views(args@), flag@, default@),
{
    match find_flag(args, flag) {
        Some(s) => s,
        None => default.to_owned(),
    }
}

/// What the server is started with.
#[derive(Debug, PartialEq, Eq)]
pub struct ServerArgs {
    pub schema_path: String,
    pub default_catalog: String,
    pub default_schema: String,
    pub address: String,
    /// The file that queries are recorded in.
    pub capture: Option<String>,
}

/// What [`ServerArgs`] say.
#[verifier::ext_equal]
pub struct ServerArgsView {
    pub schema_path: Seq<char>,
    pub default_catalog: Seq<char>,
    pub default_schema: Seq<char>,
    pub address: Seq<char>,
    pub capture: Option<Seq<char>>,
}

impl View for ServerArgs {
    type V = ServerArgsView;

    open spec fn view(&self) -> ServerArgsView {
        ServerArgsView {
            schema_path: self.schema_path@,
            default_catalog: self.default_catalog@,
            default_schema: self.default_schema@,
            address: self.address@,
            capture: match self.capture {
                Some(s) => Some(s@),
                None => None,
            },
        }
    }
}

/// What a command line asks for; nothing where it is too short. The name of the program is its
/// first argument.
pub open spec fn server_args(args: Seq<Seq<char>>) -> Option<ServerArgsView> {
    if args.len() < 3 {
        None
    } else {
        Some(
            ServerArgsView {
                schema_path: args[1],
                default_catalog: flag_or(args, "--default-catalog"@, "datafusion"@),
                default_schema: flag_or(args, "--default-schema"@, "public"@),
                address: flag_or(args, "--host"@, "127.0.0.1"@) + ":"@ + flag_or(
                    args,
                    "--port"@,
                    "5433"@,
                ),
                capture: flag_value(args, "--capture"@),
            },
        )
    }
}

/// Reads a command line.
pub fn parse_args(args: &Vec<String>) -> (r: Option<ServerArgs>)
    ensures
        match r {
            Some(a) => server_args(views(args@)) == Some(a@),
            None => server_args(views(args@)) is None,
        },
{
    if args.len() < 3 {
        return None;
    }
    let mut address = find_flag_or(args, "--host", "127.0.0.1");
    let port = find_flag_or(args, "--port", "5433");
    address.append(":");
    address.append(port.as_str());
    Some(
        ServerArgs {
            schema_path: args[1].clone(),
            default_catalog: find_flag_or(args, "--default-catalog", "datafusion"),
            default_schema: find_flag_or(args, "--default-schema", "public"),
            address,
            capture: find_flag(args, "--capture"),
        },
    )
}

// --- laws -------------------------------------------------------------------------------------

/// Whether `flag` stands at `i` in `args` and nowhere before.
pub open spec fn stands_first(args: Seq<Seq<char>>, flag: Seq<char>, i: int) -> bool {
    &&& 0 <= i < args.len()
    &&& args[i] == flag
    &&& forall|j: int| 0 <= j < i ==> #[trigger] args[j] != flag
}

/// Whether `value` is what `args` say behind `flag`: what stands behind the first one, and
/// `default` where there is none or nothing behind it.
pub open spec fn says(
    args: Seq<Seq<char>>,
    flag: Seq<char>,
    default: Seq<char>,
    value: Seq<char>,
) -> bool {
    &&& forall|i: int|
        #[trigger] stands_first(args, flag, i) && i + 1 < args.len() ==> value == args[i + 1]
    &&& (!args.contains(flag) || stands_first(args, flag, args.len() - 1)) ==> value == default
}

proof fn flag_is_found(args: Seq<Seq<char>>, flag: Seq<char>, i: nat)
    requires
        i <= args.len(),
        forall|j: int| 0 <= j < i ==> #[trigger] args[j] != flag,
    ensures
        match flag_from(args, flag, i) {
            Some(n) => stands_first(args, flag, n as int),
            None => !args.contains(flag),
        },
    decreases args.len() - i,
{
    if i < args.len() && args[i as int] != flag {
        flag_is_found(args, flag, i + 1);
    }
}

proof fn flags_are_obeyed(args: Seq<Seq<char>>, flag: Seq<char>, default: Seq<char>)
    ensures
        says(args, flag, default, flag_or(args, flag, default)),
{
    flag_is_found(args, flag, 0);
    assert forall|i: int|
        #[trigger] stands_first(args, flag, i) && i + 1 < args.len() implies flag_or(
        args,
        flag,
        default,
    ) == args[i + 1] by {
        assert(args.contains(args[i]));
        let n = flag_from(args, flag, 0)->0;
        if n < i {
            assert(args[n as int] != flag);
        } else if i < n {
            assert(args[i] != flag);
        }
    }
    if stands_first(args, flag, args.len() - 1) {
        assert(args.contains(args[args.len() - 1]));
        let n = flag_from(args, flag, 0)->0;
        if n < args.len() - 1 {
            assert(args[n as int] != flag);
        }
    }
}

/// A command line of at least two arguments is read: the first one is where the schema stands, and
/// each flag says what stands behind it. Without flags the server listens on 127.0.0.1:5433 and
/// has the catalog `datafusion` and the schema `public`. A shorter one is not read.
pub proof fn command_lines_are_read(args: Seq<Seq<char>>) -> (at: (Seq<char>, Seq<char>))
    ensures
        args.len() < 3 ==> server_args(args) is None,
        args.len() >= 3 ==> ({
            let a = server_args(args)->0;
            &&& server_args(args) is Some
            &&& a.schema_path == args[1]
            &&& says(args, "--default-catalog"@, "datafusion"@, a.default_catalog)
            &&& says(args, "--default-schema"@, "public"@, a.default_schema)
            &&& a.address == at.0 + ":"@ + at.1
            &&& says(args, "--host"@, "127.0.0.1"@, at.0)
            &&& says(args, "--port"@, "5433"@, at.1)
            &&& forall|i: int|
                #[trigger] stands_first(args, "--capture"@, i) && i + 1 < args.len() ==> a.capture
                    == Some(args[i + 1])
            &&& !args.contains("--capture"@) ==> a.capture is None
        }),
{
    flags_are_obeyed(args, "--default-catalog"@, "datafusion"@);
    flags_are_obeyed(args, "--default-schema"@, "public"@);
    flags_are_obeyed(args, "--host"@, "127.0.0.1"@);
    flags_are_obeyed(args, "--port"@, "5433"@);
    flags_are_obeyed(args, "--capture"@, "-"@);
    flag_is_found(args, "--capture"@, 0);
    assert forall|i: int|
        #[trigger] stands_first(args, "--capture"@, i) && i + 1 < args.len() implies flag_value(
        args,
        "--capture"@,
    ) == Some(args[i + 1]) by {
        assert(args.contains(args[i]));
        let n = flag_from(args, "--capture"@, 0)->0;
        if n < i {
            assert(args[n as int] != "--capture"@);
        } else if i < n {
            assert(args[i] != "--capture"@);
        }
    }
    (flag_or(args, "--host"@, "127.0.0.1"@), flag_or(args, "--port"@, "5433"@))
}

} // verus!
