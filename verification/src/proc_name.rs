//! The process name that records carry by default.

use vstd::prelude::*;
use vstd::utf8::*;

verus! {

/// `String::from_utf8`: succeeds exactly on valid UTF-8 and then yields the text that the bytes
/// encode.
#[verifier::external_body]
fn string_from_utf8(bytes: Vec<u8>) -> (text: Option<String>)
    ensures
        match text {
            Some(s) => valid_utf8(bytes@) && s@ == decode_utf8(bytes@),
            None => !valid_utf8(bytes@),
        },
{
    String::from_utf8(bytes).ok()
}

/// The byte that separates the segments of a path.
pub const SLASH: u8 = 47;

/// The byte of which the names of the current and the parent directory are made.
pub const DOT: u8 = 46;

/// Where the last segment of a path begins: behind its last slash.
pub open spec fn last_segment_start(path: Seq<u8>) -> nat
    decreases path.len(),
{
    if path.len() == 0 || path.last() == SLASH {
        path.len()
    } else {
        last_segment_start(path.drop_last())
    }
}

/// The final component of a path: its last segment, where empty segments and those that name
/// the current directory do not count. The parent directory is not a name.
pub open spec fn file_name(path: Seq<u8>) -> Option<Seq<u8>>
    decreases path.len(),
{
    let start = last_segment_start(path);
    let segment = path.skip(start as int);
    if segment.len() == 0 || segment == seq![DOT] {
        if 0 < start <= path.len() {
            file_name(path.take(start - 1))
        } else {
            None
        }
    } else if segment == seq![DOT, DOT] {
        None
    } else {
        Some(segment)
    }
}

/// The process name for the given first argument of the process: the file name in it, if there
/// is one and it is text.
pub open spec fn default_proc_name(arg0: Option<Seq<u8>>) -> Option<Seq<char>> {
    match arg0 {
        Some(path) => match file_name(path) {
            Some(name) => if valid_utf8(name) {
                Some(decode_utf8(name))
            } else {
                None
            },
            None => None,
        },
        None => None,
    }
}

/// A segment starts within its path and, unless at the front, behind a slash. It holds none.
proof fn lemma_last_segment_start(path: Seq<u8>)
    ensures
        last_segment_start(path) <= path.len(),
        last_segment_start(path) > 0 ==> path[last_segment_start(path) - 1] == SLASH,
        forall|i: int| last_segment_start(path) <= i < path.len() ==> path[i] != SLASH,
    decreases path.len(),
{
    if path.len() == 0 || path.last() == SLASH {
    } else {
        lemma_last_segment_start(path.drop_last());
        assert forall|i: int| last_segment_start(path) <= i < path.len() implies path[i]
            != SLASH by {
            if i < path.len() - 1 {
                assert(path.drop_last()[i] == path[i]);
            }
        }
    }
}

/// Only one place in a path has the last slash right before it.
proof fn lemma_start_unique(path: Seq<u8>, start: int)
    requires
        0 <= start <= path.len(),
        start > 0 ==> path[start - 1] == SLASH,
        forall|i: int| start <= i < path.len() ==> path[i] != SLASH,
    ensures
        last_segment_start(path) == start,
{
    lemma_last_segment_start(path);
    let other = last_segment_start(path) as int;
    if other < start {
        assert(path[start - 1] != SLASH);
    }
    if start < other {
        assert(path[other - 1] != SLASH);
    }
}

/// The process name for the given first argument of the process.
///
/// The name is the _file name_ in the argument. For example, if the program was invoked as
///
/// ```bash
/// $ path/to/app --delete everything
/// ```
///
/// the process name would be _app_.
pub fn get_proc_name(arg0: Option<&[u8]>) -> (name: Option<String>)
    ensures
        match name {
            Some(s) => default_proc_name(arg0_view(arg0)) == Some(s@),
            None => default_proc_name(arg0_view(arg0)) is None,
        },
{
    let path: &[u8] = match arg0 {
        Some(path) => path,
        None => {
            return None;
        },
    };
    let mut end: usize = path.len();
    proof {
        assert(path@.take(end as int) =~= path@);
    }
    loop
        invariant
            end <= path@.len(),
            arg0_view(arg0) == Some(path@),
            file_name(path@) == file_name(path@.take(end as int)),
        decreases end,
    {
        let ghost front = path@.take(end as int);
        let mut start: usize = end;
        while start > 0 && path[start - 1] != SLASH
            invariant
                start <= end <= path@.len(),
                forall|i: int| start <= i < end ==> path@[i] != SLASH,
            decreases start,
        {
            start = start - 1;
        }
        proof {
            lemma_start_unique(front, start as int);
        }
        let ghost segment = front.skip(start as int);
        let len: usize = end - start;
        assert(forall|i: int| 0 <= i < len ==> segment[i] == path@[start + i]);
        if len == 0 || (len == 1 && path[start] == DOT) {
            proof {
                if len == 1 {
                    assert(segment =~= seq![DOT]);
                }
            }
            if start == 0 {
                return None;
            }
            proof {
                assert(front.take(start - 1) =~= path@.take(start - 1));
            }
            end = start - 1;
        } else {
            if len == 2 && path[start] == DOT && path[start + 1] == DOT {
                assert(segment =~= seq![DOT, DOT]);
                return None;
            }
            proof {
                if segment == seq![DOT] {
                    assert(segment[0] == DOT);
                }
                if segment == seq![DOT, DOT] {
                    assert(segment[0] == DOT && segment[1] == DOT);
                }
            }
            let mut name: Vec<u8> = Vec::new();
            let mut i: usize = start;
            while i < end
                invariant
                    start <= i <= end <= path@.len(),
                    name@ == path@.subrange(start as int, i as int),
                decreases end - i,
            {
                name.push(path[i]);
                i = i + 1;
                assert(name@ =~= path@.subrange(start as int, i as int));
            }
            assert(name@ =~= segment);
            return string_from_utf8(name);
        }
    }
}

/// The bytes of an optional argument.
pub open spec fn arg0_view(arg0: Option<&[u8]>) -> Option<Seq<u8>> {
    match arg0 {
        Some(path) => Some(path@),
        None => None,
    }
}

/// A file name is not empty, holds no slash, names neither the current nor the parent directory,
/// and occurs in its path at the front or behind a slash.
pub proof fn law_file_name_is_one_component(path: Seq<u8>)
    ensures
        file_name(path) matches Some(name) ==> {
            &&& name.len() > 0
            &&& name != seq![DOT]
            &&& name != seq![DOT, DOT]
            &&& forall|i: int| 0 <= i < name.len() ==> name[i] != SLASH
            &&& exists|start: int|
                0 <= start <= path.len() - name.len() && #[trigger] path.subrange(
                    start,
                    start + name.len(),
                ) == name && (start == 0 || path[start - 1] == SLASH)
        },
    decreases path.len(),
{
    lemma_last_segment_start(path);
    let start = last_segment_start(path) as int;
    let segment = path.skip(start);
    if segment.len() == 0 || segment == seq![DOT] {
        if start > 0 {
            let front = path.take(start - 1);
            law_file_name_is_one_component(front);
            if let Some(name) = file_name(path) {
                let at = choose|at: int|
                    0 <= at <= front.len() - name.len() && #[trigger] front.subrange(
                        at,
                        at + name.len(),
                    ) == name && (at == 0 || front[at - 1] == SLASH);
                assert(path.subrange(at, at + name.len()) =~= front.subrange(at, at + name.len()));
            }
        }
    } else if segment == seq![DOT, DOT] {
    } else {
        assert(path.subrange(start, start + segment.len()) =~= segment);
        assert forall|i: int| 0 <= i < segment.len() implies segment[i] != SLASH by {
            assert(segment[i] == path[start + i]);
        }
    }
}

/// Behind any directories, a name that is not empty, holds no slash and names neither the
/// current nor the parent directory is the file name, with or without a trailing slash.
pub proof fn law_file_name_ignores_directories(dirs: Seq<u8>, name: Seq<u8>)
    requires
        dirs.len() == 0 || dirs.last() == SLASH,
        name.len() > 0,
        name != seq![DOT],
        name != seq![DOT, DOT],
        forall|i: int| 0 <= i < name.len() ==> name[i] != SLASH,
    ensures
        file_name(dirs + name) == Some(name),
        file_name((dirs + name).push(SLASH)) == Some(name),
{
    let path = dirs + name;
    lemma_start_unique(path, dirs.len() as int);
    assert(path.skip(dirs.len() as int) =~= name);
    let longer = path.push(SLASH);
    lemma_start_unique(longer, longer.len() as int);
    assert(longer.take(longer.len() - 1) =~= path);
}

/// What follows the last name in a path does not matter as long as it names no other directory:
/// neither a slash nor the current directory, as often as they come. Behind the parent directory,
/// and in a path that names nothing, there is no file name.
pub proof fn law_file_name_ignores_what_names_nothing(path: Seq<u8>, dirs: Seq<u8>)
    requires
        dirs.len() == 0 || dirs.last() == SLASH,
    ensures
        file_name(path.push(SLASH)) == file_name(path),
        file_name(path.push(SLASH).push(DOT)) == file_name(path),
        file_name(dirs.push(DOT)) == file_name(dirs),
        file_name(dirs.push(DOT).push(DOT)) is None,
        file_name(Seq::<u8>::empty()) is None,
{
    let slash = path.push(SLASH);
    lemma_start_unique(slash, slash.len() as int);
    assert(slash.take(slash.len() - 1) =~= path);
    let dot = slash.push(DOT);
    lemma_start_unique(dot, slash.len() as int);
    assert(dot.skip(slash.len() as int) =~= seq![DOT]);
    assert(dot.take(slash.len() - 1) =~= path);
    let here = dirs.push(DOT);
    lemma_start_unique(here, dirs.len() as int);
    assert(here.skip(dirs.len() as int) =~= seq![DOT]);
    if dirs.len() > 0 {
        lemma_start_unique(dirs, dirs.len() as int);
        assert(here.take(dirs.len() - 1) =~= dirs.take(dirs.len() - 1));
    }
    let up = here.push(DOT);
    lemma_start_unique(up, dirs.len() as int);
    assert(up.skip(dirs.len() as int) =~= seq![DOT, DOT]);
    assert(seq![DOT, DOT].len() != seq![DOT].len());
}

/// A process that was started by a path is named by the whole text of the last name in it,
/// however long that is, and by nothing if it is not text.
pub proof fn law_proc_name_is_the_whole_file_name(dirs: Seq<u8>, name: Seq<u8>)
    requires
        dirs.len() == 0 || dirs.last() == SLASH,
        name.len() > 0,
        name != seq![DOT],
        name != seq![DOT, DOT],
        forall|i: int| 0 <= i < name.len() ==> name[i] != SLASH,
    ensures
        valid_utf8(name) ==> {
            &&& default_proc_name(Some(dirs + name)) == Some(decode_utf8(name))
            &&& default_proc_name(Some((dirs + name).push(SLASH))) == Some(decode_utf8(name))
        },
        default_proc_name(Some(dirs + name)) matches Some(text) ==> encode_utf8(text) == name,
        !valid_utf8(name) ==> default_proc_name(Some(dirs + name)) is None,
{
    law_file_name_ignores_directories(dirs, name);
    if valid_utf8(name) {
        decode_utf8_encode_utf8(name);
    }
}

/// Paths with the same file name give the same process name. Without an argument, or without a
/// file name in it, there is none.
pub proof fn law_proc_name_needs_a_file_name(path: Seq<u8>, other: Seq<u8>)
    ensures
        file_name(path) == file_name(other) ==> default_proc_name(Some(path)) == default_proc_name(
            Some(other),
        ),
        file_name(path) is None ==> default_proc_name(Some(path)) is None,
        default_proc_name(None) is None,
{
}

/// The bytes of an argument are seen whole.
pub proof fn law_argument_is_seen_whole(path: &[u8])
    ensures
        arg0_view(Some(path)) == Some(path@),
        arg0_view(None) is None,
{
}

} // verus!
