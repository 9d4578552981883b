//! The command line of a desktop peer that serves and fetches named files.

use crate::text;
use vstd::prelude::*;

verus! {

/// How a peer is to be run.
#[derive(Clone, Debug, PartialEq, Eq)]
pub struct PeerArgs {
    /// Whether to go through a forwarder, rather than over the local group.
    pub via: bool,
    /// The forwarder's address, or that of the local interface.
    pub address: String,
    pub command: String,
    pub name: String,
    pub path: String,
}

/// What a peer is to do.
#[derive(Clone, Copy, Debug, PartialEq, Eq, Structural)]
pub enum Command {
    Publish,
    Fetch,
}

/// What is wrong with an argument.
#[derive(Clone, Debug, PartialEq, Eq)]
pub enum ArgumentError {
    Forwarder(String),
    Interface(String),
    Name(String),
}

/// The message shown for a bad argument.
pub open spec fn argument_error_text(error: ArgumentError) -> Seq<char> {
    match error {
        ArgumentError::Forwarder(addr) => "bad forwarder addr `"@ + addr@ + "`"@,
        ArgumentError::Interface(addr) => "bad interface IPv4 `"@ + addr@ + "`"@,
        ArgumentError::Name(name) => "bad NDN name `"@ + name@ + "`"@,
    }
}

impl ArgumentError {
    /// The message shown for a bad argument.
    pub fn message(&self) -> (msg: String)
        ensures
            msg@ == argument_error_text(*self),
            match *self {
                ArgumentError::Forwarder(addr) => msg@ == "bad forwarder addr `"@ + addr@ + "`"@,
                ArgumentError::Interface(addr) => msg@ == "bad interface IPv4 `"@ + addr@ + "`"@,
                ArgumentError::Name(name) => msg@ == "bad NDN name `"@ + name@ + "`"@,
            },
    {
        match self {
            ArgumentError::Forwarder(addr) => text::concat3(
                "bad forwarder addr `",
                addr.as_str(),
                "`",
            ),
            ArgumentError::Interface(addr) => text::concat3(
                "bad interface IPv4 `",
                addr.as_str(),
                "`",
            ),
            ArgumentError::Name(name) => text::concat3("bad NDN name `", name.as_str(), "`"),
        }
    }
}

/// Whether the arguments ask to go through a forwarder.
pub open spec fn goes_via(args: Seq<String>) -> bool {
    args.len() > 0 && args[0]@ == "via"@
}

/// Where the address is among the arguments.
pub open spec fn address_at(args: Seq<String>) -> int {
    if goes_via(args) {
        1
    } else {
        0
    }
}

/// The arguments of a peer; `None` where their number is wrong.
pub fn parse_args(args: &Vec<String>) -> (parsed: Option<PeerArgs>)
    ensures
        parsed is Some <==> args@.len() == address_at(args@) + 4,
        parsed is Some <==> args@.len() == 5 && args@[0]@ == "via"@ || args@.len() == 4
            && args@[0]@ != "via"@,
        parsed matches Some(p) ==> {
            &&& p.via <==> args@.len() == 5
            &&& p.address@ == args@[args@.len() - 4]@
            &&& p.command@ == args@[args@.len() - 3]@
            &&& p.name@ == args@[args@.len() - 2]@
            &&& p.path@ == args@[args@.len() - 1]@
        },
        parsed matches Some(p) ==> {
            let base = address_at(args@);
            &&& p.via == goes_via(args@)
            &&& p.address@ == args@[base]@
            &&& p.command@ == args@[base + 1]@
            &&& p.name@ == args@[base + 2]@
            &&& p.path@ == args@[base + 3]@
        },
{
    let via: bool = args.len() > 0 && text::same(args[0].as_str(), "via");
    let base: usize = if via {
        1
    } else {
        0
    };
    if args.len() != base + 4 {
        return None;
    }
    Some(
        PeerArgs {
            via,
            address: args[base].as_str().to_owned(),
            command: args[base + 1].as_str().to_owned(),
            name: args[base + 2].as_str().to_owned(),
            path: args[base + 3].as_str().to_owned(),
        },
    )
}

/// Checks the address and the name of a peer, in this order, given whether each
/// is one.
pub fn check_args(args: &PeerArgs, address_parses: bool, name_parses: bool) -> (checked: Result<
    bool,
    ArgumentError,
>)
    ensures
        address_parses && name_parses ==> checked == Ok::<bool, ArgumentError>(true),
        !address_parses ==> checked is Err && match checked->Err_0 {
            ArgumentError::Forwarder(addr) => args.via && addr@ == args.address@,
            ArgumentError::Interface(addr) => !args.via && addr@ == args.address@,
            ArgumentError::Name(_) => false,
        },
        address_parses && !name_parses ==> (checked matches Err(ArgumentError::Name(name))
            && name@ == args.name@),
{
    if !address_parses {
        let address: String = args.address.as_str().to_owned();
        return Err(
            if args.via {
                ArgumentError::Forwarder(address)
            } else {
                ArgumentError::Interface(address)
            },
        );
    }
    if !name_parses {
        return Err(ArgumentError::Name(args.name.as_str().to_owned()));
    }
    Ok(true)
}

/// What a command word means, if anything.
pub fn parse_command(word: &str) -> (command: Option<Command>)
    ensures
        command == (if word@ == "publish"@ {
            Some(Command::Publish)
        } else if word@ == "fetch"@ {
            Some(Command::Fetch)
        } else {
            None
        }),
{
    if text::same(word, "publish") {
        Some(Command::Publish)
    } else if text::same(word, "fetch") {
        Some(Command::Fetch)
    } else {
        None
    }
}

/// A text without the slashes in front of it.
pub open spec fn without_leading_slashes(s: Seq<char>) -> Seq<char>
    decreases s.len(),
{
    if s.len() > 0 && s[0] == '/' {
        without_leading_slashes(s.skip(1))
    } else {
        s
    }
}

/// The file that a peer keeps its identity in: the name as one path component.
pub open spec fn identity_file_of(name: Seq<char>) -> Seq<char> {
    without_leading_slashes(name).map_values(
        |c: char|
            if c == '/' {
                '_'
            } else {
                c
            },
    )
}

/// The file that a peer of this name keeps its identity in.
pub fn identity_file(name: &str) -> (file: String)
    ensures
        file@ == identity_file_of(name@),
{
    let chars: Vec<char> = text::to_chars(name);
    let len: usize = chars.len();
    let mut from: usize = 0;
    assert(name@.skip(0) =~= name@);
    while from < len && chars[from] == '/'
        invariant
            chars@ == name@,
            len == chars@.len(),
            from <= len,
            without_leading_slashes(name@) == without_leading_slashes(name@.skip(from as int)),
        decreases len - from,
    {
        assert(name@.skip(from as int)[0] == '/');
        assert(name@.skip(from as int).skip(1) =~= name@.skip(from + 1));
        from = from + 1;
    }
    let ghost rest = name@.skip(from as int);
    proof {
        if from < len {
            assert(rest[0] == chars@[from as int]);
        }
        assert(without_leading_slashes(name@) == rest);
    }
    let ghost flat = |c: char|
        if c == '/' {
            '_'
        } else {
            c
        };
    let mut file: String = String::new();
    let mut i: usize = from;
    while i < len
        invariant
            chars@ == name@,
            len == chars@.len(),
            from <= i <= len,
            rest == name@.skip(from as int),
            flat == (|c: char|
                if c == '/' {
                    '_'
                } else {
                    c
                }),
            file@ == rest.take(i - from).map_values(flat),
        decreases len - i,
    {
        let c: char = chars[i];
        file.push(
            if c == '/' {
                '_'
            } else {
                c
            },
        );
        i = i + 1;
        assert(file@ =~= rest.take(i - from).map_values(flat));
    }
    assert(rest.take(len - from) =~= rest);
    assert(file@ =~= identity_file_of(name@));
    file
}

/// An identity file is named like its identity: without the slashes in front, and
/// with an underscore for each other slash.
pub proof fn law_identity_file_follows_the_name(slashes: nat, rest: Seq<char>)
    requires
        rest.len() > 0 ==> rest[0] != '/',
    ensures
        ({
            let name = Seq::new(slashes, |i: int| '/') + rest;
            let file = identity_file_of(name);
            &&& file.len() == rest.len()
            &&& forall|i: int|
                0 <= i < rest.len() ==> #[trigger] file[i] == if rest[i] == '/' {
                    '_'
                } else {
                    rest[i]
                }
        }),
    decreases slashes,
{
    let name = Seq::new(slashes, |i: int| '/') + rest;
    if slashes == 0 {
        assert(name =~= rest);
    } else {
        law_identity_file_follows_the_name((slashes - 1) as nat, rest);
        assert(name.skip(1) =~= Seq::new((slashes - 1) as nat, |i: int| '/') + rest);
    }
}

/// An identity file is a single path component: it holds no slash.
pub proof fn law_identity_file_is_one_component(name: Seq<char>)
    ensures
        !identity_file_of(name).contains('/'),
{
    let file = identity_file_of(name);
    assert forall|i: int| 0 <= i < file.len() implies file[i] != '/' by {
        let c = without_leading_slashes(name)[i];
    }
}

} // verus!
