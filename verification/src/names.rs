//! Names taken from code: the last path segment of a type's name, and the
//! name of a function item.

use vstd::prelude::*;

verus! {

pub open spec fn is_opening(c: char) -> bool {
    c == '<' || c == '(' || c == '['
}

pub open spec fn is_closing(c: char) -> bool {
    c == '>' || c == ')' || c == ']'
}

/// A path scanned from `index` on, at bracket depth `depth`: where the last
/// segment starts, and where its generic arguments or parameters begin, if
/// they do. `::` outside brackets starts a new segment.
pub open spec fn scan_path(text: Seq<char>, index: nat, depth: nat, start: nat, end: Option<nat>) -> (
    nat,
    Option<nat>,
)
    decreases text.len() - index,
{
    if index >= text.len() {
        (start, end)
    } else {
        let c = text[index as int];
        if is_opening(c) {
            scan_path(
                text,
                index + 1,
                depth + 1,
                start,
                if depth == 0 && end is None {
                    Some(index)
                } else {
                    end
                },
            )
        } else if is_closing(c) {
            scan_path(
                text,
                index + 1,
                if depth > 0 {
                    (depth - 1) as nat
                } else {
                    0
                },
                start,
                end,
            )
        } else if c == ':' && depth == 0 && index + 1 < text.len() && text[index + 1int] == ':' {
            scan_path(text, index + 2, depth, index + 2, None)
        } else {
            scan_path(text, index + 1, depth, start, end)
        }
    }
}

/// The last path segment of `text`, without generic arguments:
/// `ActionNode` for `flatbt::tree::ActionNode<game::Walk>`. The whole text
/// when that segment is empty.
pub open spec fn last_segment_of(text: Seq<char>) -> Seq<char> {
    let (start, end) = scan_path(text, 0, 0, 0, None);
    let stop = match end {
        Some(e) => e,
        None => text.len(),
    };
    let segment = text.subrange(start as int, stop as int);
    if segment.len() == 0 {
        text
    } else {
        segment
    }
}

/// The scan keeps the segment inside the text.
pub proof fn lemma_scan_bounds(text: Seq<char>, index: nat, depth: nat, start: nat, end: Option<nat>)
    requires
        start <= index <= text.len(),
        depth <= index,
        end matches Some(e) ==> start <= e < text.len(),
    ensures
        ({
            let (s, e) = scan_path(text, index, depth, start, end);
            s <= text.len() && (e matches Some(x) ==> s <= x < text.len())
        }),
    decreases text.len() - index,
{
    if index < text.len() {
        let c = text[index as int];
        if is_opening(c) {
            lemma_scan_bounds(
                text,
                index + 1,
                depth + 1,
                start,
                if depth == 0 && end is None {
                    Some(index)
                } else {
                    end
                },
            );
        } else if is_closing(c) {
            lemma_scan_bounds(
                text,
                index + 1,
                if depth > 0 {
                    (depth - 1) as nat
                } else {
                    0
                },
                start,
                end,
            );
        } else if c == ':' && depth == 0 && index + 1 < text.len() && text[index + 1int] == ':' {
            lemma_scan_bounds(text, index + 2, depth, index + 2, None);
        } else {
            lemma_scan_bounds(text, index + 1, depth, start, end);
        }
    }
}

/// The last segment is a run of the text's own characters, so ASCII text
/// gives an ASCII segment.
pub proof fn lemma_last_segment_within(text: Seq<char>)
    ensures
        is_ascii_text(text) ==> is_ascii_text(last_segment_of(text)),
{
    lemma_scan_bounds(text, 0, 0, 0, None);
    let (start, end) = scan_path(text, 0, 0, 0, None);
    let stop = match end {
        Some(e) => e,
        None => text.len(),
    };
    if is_ascii_text(text) && start <= stop {
        let segment = text.subrange(start as int, stop as int);
        assert forall|i: int| 0 <= i < segment.len() implies (#[trigger] segment[i] as u32) < 128 by {
            assert(segment[i] == text[start + i]);
        }
    }
}

/// The last path segment of `full`, without generic arguments; the whole of
/// `full` when that segment is empty.
pub fn last_segment(full: &str) -> (r: &str)
    ensures
        r@ == last_segment_of(full@),
{
    let len = full.unicode_len();
    let mut depth: usize = 0;
    let mut start: usize = 0;
    let mut end: Option<usize> = None;
    let mut index: usize = 0;
    let ghost target = scan_path(full@, 0, 0, 0, None);
    while index < len
        invariant
            len == full@.len(),
            start <= index <= len,
            depth <= index,
            end matches Some(e) ==> start <= e < len,
            scan_path(full@, index as nat, depth as nat, start as nat, match end {
                Some(e) => Some(e as nat),
                None => None,
            }) == target,
        decreases len - index,
    {
        let c = full.get_char(index);
        if c == '<' || c == '(' || c == '[' {
            if depth == 0 && end.is_none() {
                end = Some(index);
            }
            depth = depth + 1;
            index = index + 1;
        } else if c == '>' || c == ')' || c == ']' {
            if depth > 0 {
                depth = depth - 1;
            }
            index = index + 1;
        } else if c == ':' && depth == 0 && index + 1 < len && full.get_char(index + 1) == ':' {
            start = index + 2;
            end = None;
            index = index + 2;
        } else {
            index = index + 1;
        }
    }
    let stop = match end {
        Some(e) => e,
        None => len,
    };
    if start == stop {
        return full;
    }
    full.substring_char(start, stop)
}

/// Whether `c` is alphabetic, as `char::is_alphabetic` says.
pub uninterp spec fn alphabetic(c: char) -> bool;

/// Whether `c` is alphanumeric, as `char::is_alphanumeric` says.
pub uninterp spec fn alphanumeric(c: char) -> bool;

/// `char::is_alphabetic`: Unicode's Alphabetic property. Among ASCII
/// characters it holds of the letters `a` to `z` and `A` to `Z` alone.
#[verifier::external_body]
fn is_alphabetic(c: char) -> (r: bool)
    ensures
        r == alphabetic(c),
        (c as u32) < 128 ==> (r <==> (('a' <= c && c <= 'z') || ('A' <= c && c <= 'Z'))),
{
    c.is_alphabetic()
}

/// `char::is_alphanumeric`: Unicode's Alphabetic or Numeric property, so
/// every alphabetic character is alphanumeric. Among ASCII characters it
/// holds of the letters and the digits `0` to `9` alone.
#[verifier::external_body]
fn is_alphanumeric(c: char) -> (r: bool)
    ensures
        r == alphanumeric(c),
        alphabetic(c) ==> r,
        (c as u32) < 128 ==> (r <==> (('a' <= c && c <= 'z') || ('A' <= c && c <= 'Z') || ('0' <= c
            && c <= '9'))),
{
    c.is_alphanumeric()
}

/// `text` is an identifier: it starts with a letter or `_`, and holds only
/// letters, digits and `_`.
pub open spec fn is_identifier(text: Seq<char>) -> bool {
    &&& text.len() > 0
    &&& (alphabetic(text[0]) || text[0] == '_')
    &&& forall|i: int| 0 <= i < text.len() ==> alphanumeric(#[trigger] text[i]) || text[i] == '_'
}

/// `text` starts with `fn(`: the name of a function pointer type.
pub open spec fn is_fn_pointer(text: Seq<char>) -> bool {
    text.len() >= 3 && text[0] == 'f' && text[1] == 'n' && text[2] == '('
}

/// The name of a function item, from its type's full name, such as
/// `has_ammo` in `check(has_ammo)`. `None` for closures, function pointers,
/// and other types.
pub open spec fn function_name_of(full: Seq<char>) -> Option<Seq<char>> {
    let name = last_segment_of(full);
    if !is_fn_pointer(full) && is_identifier(name) {
        Some(name)
    } else {
        None
    }
}

/// An ASCII letter.
pub open spec fn is_ascii_letter(c: char) -> bool {
    ('a' <= c && c <= 'z') || ('A' <= c && c <= 'Z')
}

/// An ASCII letter or digit.
pub open spec fn is_ascii_letter_or_digit(c: char) -> bool {
    is_ascii_letter(c) || ('0' <= c && c <= '9')
}

/// Every character of `text` is ASCII.
pub open spec fn is_ascii_text(text: Seq<char>) -> bool {
    forall|i: int| 0 <= i < text.len() ==> (#[trigger] text[i] as u32) < 128
}

/// `text` is an ASCII identifier: it starts with a letter or `_`, and holds
/// only letters, digits and `_`.
pub open spec fn is_ascii_identifier(text: Seq<char>) -> bool {
    &&& text.len() > 0
    &&& (is_ascii_letter(text[0]) || text[0] == '_')
    &&& forall|i: int| 0 <= i < text.len() ==> is_ascii_letter_or_digit(#[trigger] text[i]) || text[i] == '_'
}

/// [`function_name_of`] for a name made of ASCII characters: the last
/// segment when it is an ASCII identifier and the name is no function
/// pointer.
pub open spec fn ascii_function_name_of(full: Seq<char>) -> Option<Seq<char>> {
    let name = last_segment_of(full);
    if !is_fn_pointer(full) && is_ascii_identifier(name) {
        Some(name)
    } else {
        None
    }
}

fn identifier(text: &str) -> (r: bool)
    ensures
        r == is_identifier(text@),
        is_ascii_text(text@) ==> (r == is_ascii_identifier(text@)),
{
    let len = text.unicode_len();
    if len == 0 {
        return false;
    }
    let first = text.get_char(0);
    if !(is_alphabetic(first) || first == '_') {
        return false;
    }
    let mut index: usize = 0;
    while index < len
        invariant
            len == text@.len(),
            index <= len,
            forall|i: int| 0 <= i < index ==> alphanumeric(#[trigger] text@[i]) || text@[i] == '_',
            forall|i: int|
                0 <= i < index ==> (#[trigger] text@[i] as u32) < 128 ==> is_ascii_letter_or_digit(
                    text@[i],
                ) || text@[i] == '_',
            alphabetic(text@[0]) || text@[0] == '_',
            (text@[0] as u32) < 128 ==> is_ascii_letter(text@[0]) || text@[0] == '_',
        decreases len - index,
    {
        let c = text.get_char(index);
        if !(is_alphanumeric(c) || c == '_') {
            proof {
                assert(text@[index as int] == c);
            }
            return false;
        }
        index = index + 1;
    }
    true
}

/// The name of a function item, such as `has_ammo` in `check(has_ammo)`,
/// from the full name of its type; `None` for closures, function pointers,
/// and other types. See [`function_name_of`].
pub fn fn_name(full: &str) -> (r: Option<&str>)
    ensures
        match r {
            Some(name) => function_name_of(full@) == Some(name@),
            None => function_name_of(full@) is None,
        },
        is_ascii_text(full@) ==> match r {
            Some(name) => ascii_function_name_of(full@) == Some(name@),
            None => ascii_function_name_of(full@) is None,
        },
{
    let name = last_segment(full);
    let len = full.unicode_len();
    let pointer = len >= 3 && full.get_char(0) == 'f' && full.get_char(1) == 'n' && full.get_char(2)
        == '(';
    proof {
        lemma_last_segment_within(full@);
    }
    if !pointer && identifier(name) {
        Some(name)
    } else {
        None
    }
}

} // verus!
