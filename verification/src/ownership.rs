//! Which process may drive the channel, and how it keeps the channel to itself.
//!
//! A process is told by the name of its executable. Launchers, overlays and helpers never take part,
//! and a target list can narrow the choice further. One lease, on a lock file beside the channel,
//! decides between the processes that are left.

use crate::text::{
    a_piece_stands_between, ends_in, has_ending, is_trimmed, is_trimmed_at, is_white_space, lower, lower_char,
    only_white_space_is_left_out, pieces, same, stands_between, trim, trimmed, what_stands_between_is_a_piece,
};
use vstd::prelude::*;
use vstd::string::*;
use vstd::utf8::{encode_utf8, valid_utf8};

verus! {

/// Whether a character parts the names of a path, on either system.
pub open spec fn is_separator(c: char) -> bool {
    c == '/' || c == '\\'
}

/// `at` is where the last name of a path begins.
pub open spec fn is_last_name(path: Seq<char>, at: int) -> bool {
    &&& 0 <= at <= path.len()
    &&& at > 0 ==> is_separator(path[at - 1])
    &&& forall|i: int| at <= i < path.len() ==> !is_separator(#[trigger] path[i])
}

/// The last name of a path.
pub open spec fn file_name(path: Seq<char>) -> Seq<char> {
    path.subrange(choose|at: int| is_last_name(path, at), path.len() as int)
}

/// The last name of a path, in small letters.
pub open spec fn base_name(path: Seq<char>) -> Seq<char> {
    lower(file_name(path))
}

/// A path has one last name.
pub proof fn the_last_name_is_unique(path: Seq<char>, at: int)
    requires
        is_last_name(path, at),
    ensures
        file_name(path) == path.subrange(at, path.len() as int),
{
    let other = choose|other: int| is_last_name(path, other);
    if other < at {
        assert(is_separator(path[at - 1]));
    } else if at < other {
        assert(is_separator(path[other - 1]));
    }
}

/// The last name of a path.
pub fn last_name(path: &str) -> (name: &str)
    ensures
        name@ == file_name(path@),
{
    let length: usize = path.unicode_len();
    let mut at: usize = length;
    while at > 0 && path.get_char(at - 1) != '/' && path.get_char(at - 1) != '\\'
        invariant
            at <= length,
            length == path@.len(),
            forall|i: int| at <= i < length ==> !is_separator(#[trigger] path@[i]),
        decreases at,
    {
        at -= 1;
    }
    proof {
        the_last_name_is_unique(path@, at as int);
    }
    path.substring_char(at, length)
}

/// The last name of a path, in small letters.
pub fn basename(path: &str) -> (name: String)
    ensures
        name@ == base_name(path@),
{
    last_name(path).to_ascii_lowercase()
}

/// Whether an argument names a Windows executable.
pub open spec fn is_executable(argument: Seq<char>) -> bool {
    ends_in(lower(argument), ".exe"@)
}

/// `i` is the first argument that names a Windows executable.
pub open spec fn is_first_executable(args: Seq<Seq<char>>, i: int) -> bool {
    &&& 0 <= i < args.len()
    &&& is_executable(args[i])
    &&& forall|j: int| 0 <= j < i ==> !is_executable(#[trigger] args[j])
}

/// The argument that a process is told by: the first Windows executable, which may stand behind a
/// loader; else the program itself; nothing where there are no arguments.
pub open spec fn told_by(args: Seq<Seq<char>>) -> Seq<char> {
    if exists|i: int| is_first_executable(args, i) {
        args[choose|i: int| is_first_executable(args, i)]
    } else if args.len() > 0 {
        args[0]
    } else {
        Seq::empty()
    }
}

/// The views of texts.
pub open spec fn views(args: Seq<String>) -> Seq<Seq<char>> {
    args.map_values(|s: String| s@)
}

/// The argument that a process is told by.
pub fn executable(args: &[String]) -> (argument: String)
    ensures
        argument@ == told_by(views(args@)),
{
    let ghost texts = views(args@);
    let mut i: usize = 0;
    while i < args.len()
        invariant
            i <= args@.len(),
            texts == views(args@),
            forall|j: int| 0 <= j < i ==> !is_executable(#[trigger] texts[j]),
        decreases args@.len() - i,
    {
        let small: String = args[i].as_str().to_ascii_lowercase();
        if has_ending(small.as_str(), ".exe") {
            proof {
                assert(texts[i as int] == args@[i as int]@);
                assert(is_first_executable(texts, i as int));
                let chosen = choose|k: int| is_first_executable(texts, k);
                assert(chosen == i);
            }
            return args[i].clone();
        }
        assert(texts[i as int] == args@[i as int]@);
        i += 1;
    }
    assert(!exists|k: int| is_first_executable(texts, k));
    if args.len() > 0 {
        assert(texts[0] == args@[0]@);
        args[0].clone()
    } else {
        String::new()
    }
}

/// Whether a character is left out when names are compared loosely.
pub open spec fn is_filler(c: char) -> bool {
    c == ' ' || c == '-' || c == '_'
}

/// A name without the characters that only part its words.
pub open spec fn compact(name: Seq<char>) -> Seq<char> {
    name.filter(|c: char| !is_filler(c))
}

/// Whether a process belongs to a launcher, by what its name begins with.
pub open spec fn is_launcher(name: Seq<char>) -> bool {
    "rockstar"@.is_prefix_of(compact(name)) || "socialclub"@.is_prefix_of(compact(name)) || "xalia"@.is_prefix_of(
        compact(name),
    )
}

/// The processes that never take part.
pub open spec fn excluded_names() -> Seq<Seq<char>> {
    seq![
        "explorer.exe"@,
        "xalia.exe"@,
        "launcher.exe"@,
        "launcherpatcher.exe"@,
        "rockstarservice.exe"@,
        "rockstarlauncher.exe"@,
        "socialclubhelper.exe"@,
        "socialclub.exe"@,
        "steam.exe"@,
        "steamwebhelper.exe"@,
        "gameoverlayui.exe"@,
        "neural-forge-helper.exe"@,
        "neuralforge-helper.exe"@,
        "winedevice.exe"@,
        "services.exe"@,
    ]
}

/// Whether a process can never take part, whatever the target list says.
pub open spec fn is_excluded(name: Seq<char>) -> bool {
    is_launcher(name) || name.len() == 0 || excluded_names().contains(name)
}

/// Whether a target list, of names parted by commas, names a process.
pub open spec fn is_target(list: Seq<char>, name: Seq<char>) -> bool {
    exists|k: int|
        0 <= k < pieces(list, ',').len() && base_name(trimmed(#[trigger] pieces(list, ',')[k])) == name
}

/// Whether a process may take part.
pub open spec fn may_take_part(args: Seq<Seq<char>>, target: Option<Seq<char>>) -> bool {
    let name = base_name(told_by(args));
    !is_excluded(name) && match target {
        Some(list) => is_target(list, name),
        None => true,
    }
}

fn compact_chars(name: &str) -> (chars: Vec<char>)
    ensures
        chars@ == compact(name@),
{
    let length: usize = name.unicode_len();
    let mut chars: Vec<char> = Vec::new();
    let mut i: usize = 0;
    proof {
        assert(name@.take(0).filter(|c: char| !is_filler(c)) =~= Seq::<char>::empty()) by {
            reveal(Seq::filter);
        }
    }
    while i < length
        invariant
            i <= length,
            length == name@.len(),
            chars@ == name@.take(i as int).filter(|c: char| !is_filler(c)),
        decreases length - i,
    {
        let c: char = name.get_char(i);
        proof {
            reveal(Seq::filter);
            assert(name@.take(i + 1).drop_last() =~= name@.take(i as int));
        }
        if c != ' ' && c != '-' && c != '_' {
            chars.push(c);
        }
        i += 1;
    }
    assert(name@.take(length as int) =~= name@);
    chars
}

fn begins_with(chars: &Vec<char>, prefix: &str) -> (begins: bool)
    ensures
        begins == prefix@.is_prefix_of(chars@),
{
    let length: usize = prefix.unicode_len();
    if chars.len() < length {
        return false;
    }
    let mut i: usize = 0;
    while i < length
        invariant
            i <= length <= chars@.len(),
            length == prefix@.len(),
            forall|k: int| 0 <= k < i ==> #[trigger] chars@[k] == prefix@[k],
        decreases length - i,
    {
        if chars[i] != prefix.get_char(i) {
            assert(chars@[i as int] != prefix@[i as int]);
            return false;
        }
        i += 1;
    }
    assert(prefix@ =~= chars@.subrange(0, prefix@.len() as int));
    true
}

fn is_listed(name: &str) -> (listed: bool)
    ensures
        listed == excluded_names().contains(name@),
{
    let listed: bool = same(name, "explorer.exe") || same(name, "xalia.exe") || same(name, "launcher.exe") || same(
        name,
        "launcherpatcher.exe",
    ) || same(name, "rockstarservice.exe") || same(name, "rockstarlauncher.exe") || same(
        name,
        "socialclubhelper.exe",
    ) || same(name, "socialclub.exe") || same(name, "steam.exe") || same(name, "steamwebhelper.exe") || same(
        name,
        "gameoverlayui.exe",
    ) || same(name, "neural-forge-helper.exe") || same(name, "neuralforge-helper.exe") || same(
        name,
        "winedevice.exe",
    ) || same(name, "services.exe");
    proof {
        let all = excluded_names();
        assert(all.len() == 15);
        if listed {
            assert(all[0] == name@ || all[1] == name@ || all[2] == name@ || all[3] == name@ || all[4] == name@ || all[5]
                == name@ || all[6] == name@ || all[7] == name@ || all[8] == name@ || all[9] == name@ || all[10]
                == name@ || all[11] == name@ || all[12] == name@ || all[13] == name@ || all[14] == name@);
        } else {
            assert forall|i: int| 0 <= i < all.len() implies all[i] != name@ by {}
        }
    }
    listed
}

fn targets(list: &str, name: &String) -> (named: bool)
    ensures
        named == is_target(list@, name@),
{
    let length: usize = list.unicode_len();
    let mut from: usize = 0;
    let mut i: usize = 0;
    assert(list@.take(0) =~= Seq::<char>::empty());
    assert(list@.subrange(0, 0) =~= Seq::<char>::empty());
    let ghost mut done: Seq<Seq<char>> = Seq::empty();
    while i < length
        invariant
            from <= i <= length,
            length == list@.len(),
            pieces(list@.take(i as int), ',') =~= done.push(list@.subrange(from as int, i as int)),
            forall|k: int| 0 <= k < done.len() ==> base_name(trimmed(#[trigger] done[k])) != name@,
        decreases length - i,
    {
        let ghost before = pieces(list@.take(i as int), ',');
        assert(list@.take(i + 1).drop_last() =~= list@.take(i as int));
        assert(list@.take(i + 1).last() == list@[i as int]);
        assert(before.drop_last() =~= done);
        if list.get_char(i) == ',' {
            let part: &str = list.substring_char(from, i);
            let found: bool = basename(trim(part)) == *name;
            if found {
                proof {
                    piece_stays(list@, ',', i as int, done.len() as int);
                    assert(before[done.len() as int] == part@);
                }
                return true;
            }
            proof {
                done = done.push(part@);
                assert(before == done);
            }
            from = i + 1;
            assert(list@.subrange(from as int, i + 1) =~= Seq::<char>::empty());
        } else {
            assert(
                list@.subrange(from as int, i + 1) =~= list@.subrange(from as int, i as int).push(list@[i as int])
            );
        }
        i += 1;
    }
    assert(list@.take(length as int) =~= list@);
    let part: &str = list.substring_char(from, length);
    let found: bool = basename(trim(part)) == *name;
    proof {
        let all = pieces(list@, ',');
        assert(all[done.len() as int] == part@);
        if !found {
            assert forall|k: int| 0 <= k < all.len() implies base_name(trimmed(#[trigger] all[k])) != name@ by {
                if k < done.len() {
                    assert(all[k] == done[k]);
                }
            }
        }
    }
    found
}

/// A piece that a separator ends stays as it is, whatever follows.
proof fn piece_stays(s: Seq<char>, separator: char, i: int, k: int)
    requires
        0 <= i < s.len(),
        s[i] == separator,
        0 <= k < pieces(s.take(i), separator).len(),
    ensures
        k < pieces(s, separator).len(),
        pieces(s, separator)[k] == pieces(s.take(i), separator)[k],
    decreases s.len(),
{
    if i == s.len() - 1 {
        assert(s.drop_last() =~= s.take(i));
    } else {
        let t = s.drop_last();
        assert(t.take(i) =~= s.take(i));
        piece_stays(t, separator, i, k);
        pieces_end_behind(t, separator, i, k);
    }
}

/// Behind a separator stands another piece.
proof fn pieces_end_behind(s: Seq<char>, separator: char, i: int, k: int)
    requires
        0 <= i < s.len(),
        s[i] == separator,
        0 <= k < pieces(s.take(i), separator).len(),
    ensures
        k + 1 < pieces(s, separator).len(),
    decreases s.len(),
{
    if i == s.len() - 1 {
        assert(s.drop_last() =~= s.take(i));
    } else {
        let t = s.drop_last();
        assert(t.take(i) =~= s.take(i));
        pieces_end_behind(t, separator, i, k);
    }
}

/// Whether a process may take part, by its arguments and the target list.
pub fn allowed(args: &[String], target: Option<&str>) -> (may: bool)
    ensures
        may == may_take_part(
            views(args@),
            match target {
                Some(list) => Some(list@),
                None => None,
            },
        ),
{
    let argument: String = executable(args);
    let name: String = basename(argument.as_str());
    let short: Vec<char> = compact_chars(name.as_str());
    if begins_with(&short, "rockstar") || begins_with(&short, "socialclub") || begins_with(&short, "xalia") {
        return false;
    }
    if name.as_str().is_empty() || is_listed(name.as_str()) {
        return false;
    }
    match target {
        Some(list) => targets(list, &name),
        None => true,
    }
}

/// What `String::from_utf8_lossy` makes of bytes.
pub uninterp spec fn lossy_text(bytes: Seq<u8>) -> Seq<char>;

/// `String::from_utf8_lossy`, as an owned text: a function of the bytes alone. Bytes that are valid
/// UTF-8 are kept as they are.
#[verifier::external_body]
fn from_utf8_lossy(bytes: &[u8]) -> (text: String)
    ensures
        text@ == lossy_text(bytes@),
        valid_utf8(bytes@) ==> encode_utf8(text@) == bytes@,
{
    String::from_utf8_lossy(bytes).into_owned()
}

/// The arguments of a command line, whose arguments are parted by zeros: the pieces that are not
/// empty.
pub open spec fn argument_bytes(command_line: Seq<u8>) -> Seq<Seq<u8>> {
    pieces(command_line, 0u8).filter(|p: Seq<u8>| p.len() > 0)
}

/// The arguments of a command line as text.
pub open spec fn argument_texts(command_line: Seq<u8>) -> Seq<Seq<char>> {
    argument_bytes(command_line).map_values(|p: Seq<u8>| lossy_text(p))
}

/// The arguments of a command line.
pub fn split_arguments(command_line: &[u8]) -> (list: Vec<Vec<u8>>)
    ensures
        list@.map_values(|p: Vec<u8>| p@) == argument_bytes(command_line@),
{
    let mut list: Vec<Vec<u8>> = Vec::new();
    let mut current: Vec<u8> = Vec::new();
    let ghost full = |p: Seq<u8>| p.len() > 0;
    let ghost mut done: Seq<Seq<u8>> = Seq::empty();
    let mut i: usize = 0;
    proof {
        reveal(Seq::filter);
        assert(command_line@.take(0) =~= Seq::<u8>::empty());
        assert(list@.map_values(|p: Vec<u8>| p@) =~= done.filter(full));
    }
    while i < command_line.len()
        invariant
            i <= command_line@.len(),
            full == (|p: Seq<u8>| p.len() > 0),
            pieces(command_line@.take(i as int), 0u8) =~= done.push(current@),
            list@.map_values(|p: Vec<u8>| p@) == done.filter(full),
        decreases command_line@.len() - i,
    {
        let b: u8 = command_line[i];
        let ghost before = pieces(command_line@.take(i as int), 0u8);
        assert(command_line@.take(i + 1).drop_last() =~= command_line@.take(i as int));
        assert(before.drop_last() =~= done);
        if b == 0 {
            let ghost ended = current@;
            let ghost kept = list@;
            proof {
                filter_of_push(done, ended);
                done = done.push(ended);
            }
            if current.len() > 0 {
                list.push(current);
                assert(list@.map_values(|p: Vec<u8>| p@) =~= kept.map_values(|p: Vec<u8>| p@).push(ended));
                current = Vec::new();
            }
            assert(current@ =~= Seq::<u8>::empty());
        } else {
            current.push(b);
        }
        i += 1;
    }
    assert(command_line@.take(command_line@.len() as int) =~= command_line@);
    let ghost kept = list@;
    let ghost ended = current@;
    proof {
        filter_of_push(done, ended);
        assert(pieces(command_line@, 0u8) == done.push(ended));
    }
    if current.len() > 0 {
        list.push(current);
        assert(list@.map_values(|p: Vec<u8>| p@) =~= kept.map_values(|p: Vec<u8>| p@).push(ended));
    }
    list
}

proof fn filter_of_push(s: Seq<Seq<u8>>, p: Seq<u8>)
    ensures
        s.push(p).filter(|p: Seq<u8>| p.len() > 0) == (if p.len() > 0 {
            s.filter(|p: Seq<u8>| p.len() > 0).push(p)
        } else {
            s.filter(|p: Seq<u8>| p.len() > 0)
        }),
{
    reveal(Seq::filter);
    assert(s.push(p).drop_last() =~= s);
}

/// The arguments of a command line as text.
pub fn arguments(command_line: &[u8]) -> (args: Vec<String>)
    ensures
        views(args@) == argument_texts(command_line@),
{
    let list: Vec<Vec<u8>> = split_arguments(command_line);
    let mut args: Vec<String> = Vec::new();
    let mut i: usize = 0;
    while i < list.len()
        invariant
            i <= list@.len(),
            args@.len() == i,
            forall|k: int| 0 <= k < i ==> (#[trigger] args@[k])@ == lossy_text(list@[k]@),
        decreases list@.len() - i,
    {
        args.push(from_utf8_lossy(list[i].as_slice()));
        i += 1;
    }
    proof {
        let bytes = argument_bytes(command_line@);
        assert(list@.map_values(|p: Vec<u8>| p@) == bytes);
        assert forall|k: int| 0 <= k < args@.len() implies views(args@)[k] == #[trigger] argument_texts(
            command_line@,
        )[k] by {
            assert(bytes[k] == list@.map_values(|p: Vec<u8>| p@)[k]);
        }
        assert(views(args@) =~= argument_texts(command_line@));
    }
    args
}

/// Whether this process may take part, by its command line and the target list.
pub fn eligible(command_line: &[u8], target: Option<&str>) -> (may: bool)
    ensures
        may == may_take_part(
            argument_texts(command_line@),
            match target {
                Some(list) => Some(list@),
                None => None,
            },
        ),
{
    let args: Vec<String> = arguments(command_line);
    allowed(args.as_slice(), target)
}

/// The name that this process is shown by: the last name of the argument that tells it.
pub fn process_name(command_line: &[u8]) -> (name: String)
    ensures
        name@ == file_name(told_by(argument_texts(command_line@))),
{
    let args: Vec<String> = arguments(command_line);
    shown_name(args.as_slice())
}

/// The name that a process with these arguments is shown by.
pub fn shown_name(args: &[String]) -> (name: String)
    ensures
        name@ == file_name(told_by(views(args@))),
{
    let argument: String = executable(args);
    last_name(argument.as_str()).to_owned()
}

/// No target list lets an excluded process take part.
pub proof fn launchers_never_take_part(args: Seq<Seq<char>>, target: Option<Seq<char>>)
    requires
        is_excluded(base_name(told_by(args))),
    ensures
        !may_take_part(args, target),
{
}

/// A process without arguments never takes part.
pub proof fn a_nameless_process_never_takes_part(target: Option<Seq<char>>)
    ensures
        !may_take_part(Seq::empty(), target),
{
    let none = Seq::<Seq<char>>::empty();
    assert(told_by(none).len() == 0);
    the_last_name_is_unique(told_by(none), 0);
}

/// A target list only narrows the choice: whoever may take part with one may without.
pub proof fn a_target_list_only_narrows(args: Seq<Seq<char>>, list: Seq<char>)
    requires
        may_take_part(args, Some(list)),
    ensures
        may_take_part(args, None),
{
}

/// The part of a path before its last name decides nothing.
pub proof fn directories_do_not_matter(directory: Seq<char>, name: Seq<char>)
    requires
        directory.len() == 0 || is_separator(directory.last()),
        forall|i: int| 0 <= i < name.len() ==> !is_separator(#[trigger] name[i]),
    ensures
        base_name(directory + name) == lower(name),
{
    let path = directory + name;
    assert(is_last_name(path, directory.len() as int));
    the_last_name_is_unique(path, directory.len() as int);
    assert(path.subrange(directory.len() as int, path.len() as int) =~= name);
}

/// Whether a lock file can be trusted: a plain file of this user, closed to everyone else.
pub fn lock_is_safe(is_file: bool, owner: u32, user: u32, mode: u32) -> (safe: bool)
    ensures
        safe == (is_file && owner == user && mode & 0o077 == 0),
{
    is_file && owner == user && mode & 0o077 == 0
}

/// The lease on a channel, kept until the process ends.
pub struct Lease {
    /// The channel that is leased.
    pub path: Option<String>,
}

/// What a claim on a channel comes to.
#[derive(Clone, Copy, Debug, PartialEq, Eq, Structural)]
pub enum ClaimStep {
    /// The channel is, or is not, this process's.
    Answer { granted: bool },
    /// It depends on the lock file.
    Lock,
}

impl Lease {
    /// No lease.
    pub fn new() -> (lease: Lease)
        ensures
            lease.path is None,
    {
        Lease { path: None }
    }

    /// Whether a channel can be claimed without the lock file: never by a process that may not take
    /// part, and while there is a lease exactly for its own channel.
    pub fn claim(&self, is_eligible: bool, channel: &str) -> (step: ClaimStep)
        ensures
            step == (if !is_eligible {
                ClaimStep::Answer { granted: false }
            } else {
                match self.path {
                    Some(path) => ClaimStep::Answer { granted: path@ == channel@ },
                    None => ClaimStep::Lock,
                }
            }),
    {
        if !is_eligible {
            return ClaimStep::Answer { granted: false };
        }
        match &self.path {
            Some(path) => ClaimStep::Answer { granted: same(path.as_str(), channel) },
            None => ClaimStep::Lock,
        }
    }

    /// Takes the outcome of locking the file: the lease is kept once the file is locked.
    pub fn locked(&mut self, channel: &str, ok: bool) -> (granted: bool)
        requires
            old(self).path is None,
        ensures
            granted == ok,
            ok ==> (final(self).path matches Some(path) && path@ == channel@),
            !ok ==> final(self).path is None,
    {
        if ok {
            self.path = Some(channel.to_owned());
        }
        ok
    }
}

/// The lock file of a channel.
pub fn lock_path(channel: &str) -> (path: String)
    ensures
        path@ == channel@ + ".owner"@,
{
    let mut path: String = channel.to_owned();
    path.append(".owner");
    path
}

/// Whether the last four characters of an argument are a dot and the letters e, x and e, large or small.
pub open spec fn has_windows_suffix(argument: Seq<char>) -> bool {
    let n = argument.len() as int;
    &&& n >= 4
    &&& argument[n - 4] == '.'
    &&& argument[n - 3] == 'e' || argument[n - 3] == 'E'
    &&& argument[n - 2] == 'x' || argument[n - 2] == 'X'
    &&& argument[n - 1] == 'e' || argument[n - 1] == 'E'
}

proof fn lemma_windows_suffix(argument: Seq<char>)
    ensures
        is_executable(argument) == has_windows_suffix(argument),
{
    reveal_strlit(".exe");
    let n = argument.len() as int;
    let small = lower(argument);
    assert(".exe"@.len() == 4);
    if n >= 4 {
        let end = small.subrange(n - 4, n);
        assert(end[0] == lower_char(argument[n - 4]));
        assert(end[1] == lower_char(argument[n - 3]));
        assert(end[2] == lower_char(argument[n - 2]));
        assert(end[3] == lower_char(argument[n - 1]));
        if has_windows_suffix(argument) {
            assert(end =~= ".exe"@);
        } else if end == ".exe"@ {
            assert(end[0] == '.' && end[1] == 'e' && end[2] == 'x' && end[3] == 'e');
        }
    }
}

/// A process is told by the first of its arguments that names a Windows executable, whatever stands before
/// and behind it; and without one by the first of all.
pub proof fn the_first_windows_program_tells_a_process(args: Seq<Seq<char>>, i: int)
    requires
        0 <= i < args.len(),
        forall|j: int| 0 <= j < i ==> !has_windows_suffix(#[trigger] args[j]),
    ensures
        has_windows_suffix(args[i]) ==> told_by(args) == args[i],
        i == args.len() - 1 && !has_windows_suffix(args[i]) ==> told_by(args) == args[0],
{
    assert forall|j: int| 0 <= j < args.len() implies is_executable(#[trigger] args[j]) == has_windows_suffix(
        args[j],
    ) by {
        lemma_windows_suffix(args[j]);
    }
    if has_windows_suffix(args[i]) {
        assert(is_first_executable(args, i));
        let k = choose|k: int| is_first_executable(args, k);
        assert(k == i);
    }
}

/// A process that is told by `directory` and `base` takes part, where there is no target list, exactly if its
/// name in small letters is not empty, does not begin with one of the words of a launcher once the spaces,
/// dashes and underscores are left out, and is none of the names of launchers, helpers and services.
pub proof fn everyone_else_takes_part(args: Seq<Seq<char>>, directory: Seq<char>, base: Seq<char>)
    requires
        told_by(args) == directory + base,
        directory.len() == 0 || directory.last() == '/' || directory.last() == '\\',
        forall|i: int| 0 <= i < base.len() ==> #[trigger] base[i] != '/' && base[i] != '\\',
    ensures
        ({
            let name = lower(base);
            let short = name.filter(|c: char| c != ' ' && c != '-' && c != '_');
            may_take_part(args, None) <==> {
                &&& name.len() > 0
                &&& !"rockstar"@.is_prefix_of(short)
                &&& !"socialclub"@.is_prefix_of(short)
                &&& !"xalia"@.is_prefix_of(short)
                &&& name != "explorer.exe"@
                &&& name != "xalia.exe"@
                &&& name != "launcher.exe"@
                &&& name != "launcherpatcher.exe"@
                &&& name != "rockstarservice.exe"@
                &&& name != "rockstarlauncher.exe"@
                &&& name != "socialclubhelper.exe"@
                &&& name != "socialclub.exe"@
                &&& name != "steam.exe"@
                &&& name != "steamwebhelper.exe"@
                &&& name != "gameoverlayui.exe"@
                &&& name != "neural-forge-helper.exe"@
                &&& name != "neuralforge-helper.exe"@
                &&& name != "winedevice.exe"@
                &&& name != "services.exe"@
            }
        }),
{
    directories_do_not_matter(directory, base);
    let name = lower(base);
    assert(compact(name) == name.filter(|c: char| c != ' ' && c != '-' && c != '_')) by {
        lemma_compact(name);
    }
    let all = excluded_names();
    assert(all.len() == 15);
    assert(all[0] == "explorer.exe"@ && all[1] == "xalia.exe"@ && all[2] == "launcher.exe"@ && all[3]
        == "launcherpatcher.exe"@ && all[4] == "rockstarservice.exe"@);
    assert(all[5] == "rockstarlauncher.exe"@ && all[6] == "socialclubhelper.exe"@ && all[7] == "socialclub.exe"@
        && all[8] == "steam.exe"@ && all[9] == "steamwebhelper.exe"@);
    assert(all[10] == "gameoverlayui.exe"@ && all[11] == "neural-forge-helper.exe"@ && all[12]
        == "neuralforge-helper.exe"@ && all[13] == "winedevice.exe"@ && all[14] == "services.exe"@);
    if all.contains(name) {
        let i = choose|i: int| 0 <= i < all.len() && all[i] == name;
        assert(0 <= i < 15);
    }
}

proof fn lemma_compact(name: Seq<char>)
    ensures
        compact(name) == name.filter(|c: char| c != ' ' && c != '-' && c != '_'),
    decreases name.len(),
{
    reveal(Seq::filter);
    if name.len() > 0 {
        lemma_compact(name.drop_last());
    }
}

/// A process that takes part without a target list takes part with one that names it: its name stands between
/// two commas, or a comma and an end, in any mixture of large and small letters, with any white space round it
/// and behind any directory.
pub proof fn whoever_the_list_names_takes_part(
    args: Seq<Seq<char>>,
    list: Seq<char>,
    from: int,
    to: int,
    before: Seq<char>,
    directory: Seq<char>,
    base: Seq<char>,
    after: Seq<char>,
)
    requires
        may_take_part(args, None),
        0 <= from <= to <= list.len(),
        from == 0 || list[from - 1] == ',',
        to == list.len() || list[to] == ',',
        forall|i: int| from <= i < to ==> #[trigger] list[i] != ',',
        list.subrange(from, to) == before + (directory + base) + after,
        forall|i: int| 0 <= i < before.len() ==> is_white_space(#[trigger] before[i]),
        forall|i: int| 0 <= i < after.len() ==> is_white_space(#[trigger] after[i]),
        (directory + base).len() > 0 ==> !is_white_space((directory + base)[0]) && !is_white_space(
            (directory + base).last(),
        ),
        directory.len() == 0 || directory.last() == '/' || directory.last() == '\\',
        forall|i: int| 0 <= i < base.len() ==> #[trigger] base[i] != '/' && base[i] != '\\',
        lower(base) == base_name(told_by(args)),
    ensures
        may_take_part(args, Some(list)),
{
    assert(stands_between(list, ',', from, to));
    what_stands_between_is_a_piece(list, ',', from, to);
    let piece = list.subrange(from, to);
    let k = choose|k: int| 0 <= k < pieces(list, ',').len() && pieces(list, ',')[k] == piece;
    only_white_space_is_left_out(before, directory + base, after);
    directories_do_not_matter(directory, base);
    assert(base_name(trimmed(pieces(list, ',')[k])) == base_name(told_by(args)));
}

/// Whether what stands in a list from `a` up to `b` is all that stands, white space aside, from the start of a
/// part or from behind a slash up to the comma or the end at `to`.
pub open spec fn ends_a_part(list: Seq<char>, a: int, b: int, to: int) -> bool {
    &&& 0 <= a <= b <= to <= list.len()
    &&& to == list.len() || list[to] == ','
    &&& forall|i: int| a <= i < b ==> #[trigger] list[i] != ','
    &&& forall|i: int| b <= i < to ==> is_white_space(#[trigger] list[i])
    &&& a == 0 || list[a - 1] == ',' || list[a - 1] == '/' || list[a - 1] == '\\' || is_white_space(list[a - 1])
}

/// A target list lets no one take part that it does not name: the name, in small letters, ends a part of it.
pub proof fn no_one_else_takes_part(args: Seq<Seq<char>>, list: Seq<char>)
    requires
        may_take_part(args, Some(list)),
    ensures
        exists|a: int, b: int, to: int|
            #[trigger] ends_a_part(list, a, b, to) && lower(list.subrange(a, b)) == base_name(told_by(args)),
{
    let name = base_name(told_by(args));
    let k = choose|k: int|
        0 <= k < pieces(list, ',').len() && base_name(trimmed(#[trigger] pieces(list, ',')[k])) == name;
    let piece = pieces(list, ',')[k];
    a_piece_stands_between(list, ',', k);
    let (from, to): (int, int) = choose|from: int, to: int|
        #[trigger] stands_between(list, ',', from, to) && piece == list.subrange(from, to);
    lemma_can_be_trimmed(piece);
    let (f, t): (int, int) = choose|f: int, t: int|
        #[trigger] is_trimmed_at(piece, f, t) && trimmed(piece) == piece.subrange(f, t);
    let inner = trimmed(piece);
    lemma_has_a_last_name(inner);
    let at = choose|at: int| is_last_name(inner, at);
    let (a, b) = (from + f + at, from + t);
    assert(list.subrange(a, b) =~= inner.subrange(at, inner.len() as int));
    assert forall|i: int| b <= i < to implies is_white_space(#[trigger] list[i]) by {
        assert(piece[i - from] == list[i]);
    }
    if a > 0 {
        if at > 0 {
            assert(inner[at - 1] == list[a - 1]);
        } else if f > 0 {
            assert(piece[f - 1] == list[a - 1]);
        }
    }
    assert(ends_a_part(list, a, b, to));
    assert(lower(list.subrange(a, b)) == name);
}

proof fn lemma_can_be_trimmed(text: Seq<char>)
    ensures
        exists|f: int, t: int| #[trigger] is_trimmed_at(text, f, t) && trimmed(text) == text.subrange(f, t),
{
    lemma_trim_exists(text, 0, text.len() as int);
    let (from, to): (int, int) = choose|from: int, to: int| is_trimmed_at(text, from, to);
    assert(is_trimmed(text, text.subrange(from, to)));
    assert(is_trimmed(text, trimmed(text)));
}

proof fn lemma_trim_exists(text: Seq<char>, from: int, to: int)
    requires
        0 <= from <= to <= text.len(),
        forall|i: int| 0 <= i < from ==> is_white_space(#[trigger] text[i]),
        forall|i: int| to <= i < text.len() ==> is_white_space(#[trigger] text[i]),
    ensures
        exists|f: int, t: int| is_trimmed_at(text, f, t),
    decreases to - from,
{
    if from == to {
        assert(is_trimmed_at(text, from, to));
    } else if is_white_space(text[from]) {
        lemma_trim_exists(text, from + 1, to);
    } else if is_white_space(text[to - 1]) {
        lemma_trim_exists(text, from, to - 1);
    } else {
        assert(is_trimmed_at(text, from, to));
    }
}

proof fn lemma_has_a_last_name(path: Seq<char>)
    ensures
        exists|at: int| is_last_name(path, at),
    decreases path.len(),
{
    let n = path.len() as int;
    if n == 0 {
        assert(is_last_name(path, 0));
    } else if is_separator(path.last()) {
        assert(is_last_name(path, n));
    } else {
        let rest = path.drop_last();
        lemma_has_a_last_name(rest);
        let at = choose|at: int| is_last_name(rest, at);
        assert forall|i: int| at <= i < n implies !is_separator(#[trigger] path[i]) by {
            if i < n - 1 {
                assert(rest[i] == path[i]);
            }
        }
        assert(at > 0 ==> rest[at - 1] == path[at - 1]);
        assert(is_last_name(path, at));
    }
}

/// The arguments of a command line are what stands between its zeros, in order, without what is empty: an
/// argument in front of a zero and a command line is the first argument, and the others are those of the
/// command line.
pub proof fn zeros_part_the_arguments(argument: Seq<u8>, rest: Seq<u8>)
    requires
        forall|i: int| 0 <= i < argument.len() ==> #[trigger] argument[i] != 0,
    ensures
        argument_bytes(argument.push(0) + rest) == (if argument.len() > 0 {
            seq![argument] + argument_bytes(rest)
        } else {
            argument_bytes(rest)
        }),
        argument_bytes(argument) == (if argument.len() > 0 {
            seq![argument]
        } else {
            Seq::empty()
        }),
{
    let full = |p: Seq<u8>| p.len() > 0;
    assert(!argument.contains(0));
    crate::text::an_unparted_text_is_one_piece(argument, 0u8);
    crate::text::a_separator_parts_the_pieces(argument, 0u8, rest);
    let one = seq![argument];
    reveal(Seq::filter);
    let none = Seq::<Seq<u8>>::empty();
    assert(one =~= none.push(argument));
    filter_of_push(none, argument);
    assert(none.filter(full) =~= none);
    assert(none.push(argument) =~= one);
    lemma_filter_of_sum(one, pieces(rest, 0u8));
    assert(Seq::<Seq<u8>>::empty() + argument_bytes(rest) =~= argument_bytes(rest));
}

proof fn lemma_filter_of_sum(a: Seq<Seq<u8>>, b: Seq<Seq<u8>>)
    ensures
        (a + b).filter(|p: Seq<u8>| p.len() > 0) == a.filter(|p: Seq<u8>| p.len() > 0) + b.filter(
            |p: Seq<u8>| p.len() > 0,
        ),
    decreases b.len(),
{
    reveal(Seq::filter);
    if b.len() == 0 {
        assert(a + b =~= a);
    } else {
        lemma_filter_of_sum(a, b.drop_last());
        assert((a + b).drop_last() =~= a + b.drop_last());
        assert((a + b).last() == b.last());
    }
    let f = |p: Seq<u8>| p.len() > 0;
    assert((a + b).filter(f) =~= a.filter(f) + b.filter(f));
}

/// Every argument is read as text by itself, in its place.
pub proof fn arguments_are_read_one_by_one(command_line: Seq<u8>, args: Seq<String>, i: int)
    ensures
        argument_texts(command_line).len() == argument_bytes(command_line).len(),
        0 <= i < argument_bytes(command_line).len() ==> argument_texts(command_line)[i] == lossy_text(
            argument_bytes(command_line)[i],
        ),
        views(args).len() == args.len(),
        0 <= i < args.len() ==> views(args)[i] == args[i]@,
{
}

} // verus!
