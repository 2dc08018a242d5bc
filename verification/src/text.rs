use vstd::prelude::*;
use vstd::string::*;
use vstd::utf8::*;

use crate::keys::Key;

verus! {

broadcast use vstd::utf8::group_utf8_lib;

/// The UTF-8 bytes of a string.
pub open spec fn bytes_of(s: Seq<char>) -> Seq<u8> {
    encode_utf8(s)
}

/// `String::len`: the length of the string in bytes, that is of its UTF-8 encoding.
/// (vstd's `str::len` returns that length cast to `usize`, and nothing in vstd bounds it,
/// so the exact length is taken from std's `String::len` here.)
#[verifier::external_body]
fn byte_len(s: &String) -> (n: usize)
    ensures
        n == bytes_of(s@).len(),
{
    s.len()
}

/// `String::insert`: inserts the UTF-8 encoding of `c` at byte position `idx`.
/// The std documentation says it panics when `idx` is not on a char boundary; a
/// `String` never holds more than `isize::MAX` bytes, so a longer result is left out.
#[verifier::external_body]
fn string_insert(s: &mut String, idx: usize, c: char)
    requires
        is_char_boundary(bytes_of(old(s)@), idx as int),
        bytes_of(old(s)@).len() + 4 <= isize::MAX,
    ensures
        bytes_of(final(s)@) == insert_char_at(bytes_of(old(s)@), idx as int, c),
{
    s.insert(idx, c)
}

/// `String::remove`: removes the character whose encoding starts at byte position `idx`.
/// The std documentation says it panics when `idx` is not below the length or not on a
/// char boundary.
#[verifier::external_body]
fn string_remove(s: &mut String, idx: usize)
    requires
        idx < bytes_of(old(s)@).len(),
        is_char_boundary(bytes_of(old(s)@), idx as int),
    ensures
        bytes_of(final(s)@) == remove_char_at(bytes_of(old(s)@), idx as int),
{
    s.remove(idx);
}

/// The bytes `b` with the encoding of `c` inserted at byte position `i`.
pub open spec fn insert_char_at(b: Seq<u8>, i: int, c: char) -> Seq<u8> {
    b.take(i) + encode_utf8(seq![c]) + b.skip(i)
}

/// The bytes `b` without the character whose encoding starts at byte position `i`.
pub open spec fn remove_char_at(b: Seq<u8>, i: int) -> Seq<u8> {
    b.take(i) + b.skip(i + length_of_first_scalar(b.skip(i)))
}

/// Whether editing text `b` at byte position `cursor` with `key` only ever inserts or
/// removes at character boundaries (elsewhere `String` panics).
pub open spec fn edit_is_defined(b: Seq<u8>, cursor: int, key: Key) -> bool {
    match key {
        Key::Char(_) => is_char_boundary(b, cursor) && b.len() + 4 <= isize::MAX,
        Key::Backspace => cursor > 0 ==> cursor - 1 < b.len() && is_char_boundary(b, cursor - 1),
        Key::Delete => cursor < b.len() ==> is_char_boundary(b, cursor),
        _ => true,
    }
}

/// The text after editing text `b` at byte position `cursor` with `key`.
pub open spec fn edited_bytes(b: Seq<u8>, cursor: int, key: Key) -> Seq<u8> {
    match key {
        Key::Char(c) => insert_char_at(b, cursor, c),
        Key::Backspace => if cursor > 0 { remove_char_at(b, cursor - 1) } else { b },
        Key::Delete => if cursor < b.len() { remove_char_at(b, cursor) } else { b },
        _ => b,
    }
}

/// The cursor after editing text `b` at byte position `cursor` with `key`.
pub open spec fn edited_cursor(b: Seq<u8>, cursor: int, key: Key) -> int {
    match key {
        Key::Char(_) => cursor + 1,
        Key::Backspace => if cursor > 0 { cursor - 1 } else { cursor },
        Key::Left => if cursor > 0 { cursor - 1 } else { cursor },
        Key::Right => if cursor < b.len() { cursor + 1 } else { cursor },
        Key::Home => 0,
        Key::End => b.len() as int,
        _ => cursor,
    }
}

proof fn lemma_boundary_in_range(b: Seq<u8>, i: int)
    requires
        valid_utf8(b),
        is_char_boundary(b, i),
    ensures
        0 <= i <= b.len(),
{
    reveal_with_fuel(is_char_boundary, 1);
}

/// Applies an editing key (a character, Backspace, Delete, Left, Right, Home, End) to a
/// text and its byte cursor; other keys change nothing.
pub fn edit_text(text: &mut String, cursor: &mut usize, key: Key)
    requires
        edit_is_defined(bytes_of(old(text)@), *old(cursor) as int, key),
    ensures
        bytes_of(final(text)@) == edited_bytes(bytes_of(old(text)@), *old(cursor) as int, key),
        *final(cursor) == edited_cursor(bytes_of(old(text)@), *old(cursor) as int, key),
{
    proof {
        encode_utf8_valid_utf8(old(text)@);
    }
    match key {
        Key::Char(c) => {
            proof {
                lemma_boundary_in_range(bytes_of(text@), *cursor as int);
            }
            string_insert(text, *cursor, c);
            *cursor = *cursor + 1;
        },
        Key::Backspace => {
            if *cursor > 0 {
                proof {
                    lemma_boundary_in_range(bytes_of(text@), *cursor - 1);
                }
                string_remove(text, *cursor - 1);
                *cursor = *cursor - 1;
            }
        },
        Key::Delete => {
            if *cursor < byte_len(text) {
                string_remove(text, *cursor);
            }
        },
        Key::Left => {
            if *cursor > 0 {
                *cursor = *cursor - 1;
            }
        },
        Key::Right => {
            if *cursor < byte_len(text) {
                *cursor = *cursor + 1;
            }
        },
        Key::Home => {
            *cursor = 0;
        },
        Key::End => {
            *cursor = byte_len(text);
        },
        _ => {},
    }
}


/// Whether `c` is whitespace as `char::is_whitespace` defines it: the characters with the
/// Unicode `White_Space` property.
pub open spec fn is_unicode_whitespace(c: char) -> bool {
    let u = c as u32;
    ||| 0x09 <= u <= 0x0D
    ||| u == 0x20
    ||| u == 0x85
    ||| u == 0xA0
    ||| u == 0x1680
    ||| 0x2000 <= u <= 0x200A
    ||| u == 0x2028
    ||| u == 0x2029
    ||| u == 0x202F
    ||| u == 0x205F
    ||| u == 0x3000
}

/// `s` without its leading whitespace.
pub open spec fn trim_start_chars(s: Seq<char>) -> Seq<char>
    decreases s.len(),
{
    if s.len() > 0 && is_unicode_whitespace(s[0]) {
        trim_start_chars(s.drop_first())
    } else {
        s
    }
}

/// `s` without its trailing whitespace.
pub open spec fn trim_end_chars(s: Seq<char>) -> Seq<char>
    decreases s.len(),
{
    if s.len() > 0 && is_unicode_whitespace(s.last()) {
        trim_end_chars(s.drop_last())
    } else {
        s
    }
}

/// `s` without its leading and trailing whitespace.
pub open spec fn trim_chars(s: Seq<char>) -> Seq<char> {
    trim_end_chars(trim_start_chars(s))
}

proof fn lemma_trim_start_shape(s: Seq<char>)
    ensures
        trim_start_chars(s).len() == 0 || !is_unicode_whitespace(trim_start_chars(s)[0]),
    decreases s.len(),
{
    if s.len() > 0 && is_unicode_whitespace(s[0]) {
        lemma_trim_start_shape(s.drop_first());
    }
}

proof fn lemma_trim_end_shape(t: Seq<char>)
    ensures
        trim_end_chars(t).len() <= t.len(),
        forall|i: int| 0 <= i < trim_end_chars(t).len() ==> #[trigger] trim_end_chars(t)[i] == t[i],
        trim_end_chars(t).len() == 0 || !is_unicode_whitespace(trim_end_chars(t).last()),
    decreases t.len(),
{
    if t.len() > 0 && is_unicode_whitespace(t.last()) {
        lemma_trim_end_shape(t.drop_last());
    }
}

/// Trimming twice is trimming once.
pub proof fn lemma_trim_idempotent(s: Seq<char>)
    ensures
        trim_chars(trim_chars(s)) == trim_chars(s),
{
    let a = trim_start_chars(s);
    let t = trim_end_chars(a);
    lemma_trim_start_shape(s);
    lemma_trim_end_shape(a);
    if t.len() > 0 {
        assert(t[0] == a[0]);
        assert(trim_start_chars(t) == t);
    } else {
        assert(trim_start_chars(t) == t);
    }
    assert(trim_end_chars(t) == t);
}

/// How many leading characters trimming the start drops: all of them whitespace.
proof fn trim_start_count(s: Seq<char>) -> (k: int)
    ensures
        0 <= k <= s.len(),
        trim_start_chars(s) == s.skip(k),
        forall|i: int| 0 <= i < k ==> is_unicode_whitespace(#[trigger] s[i]),
    decreases s.len(),
{
    if s.len() > 0 && is_unicode_whitespace(s[0]) {
        let r = s.drop_first();
        let k = trim_start_count(r);
        assert(r.skip(k) =~= s.skip(k + 1));
        assert forall|i: int| 0 <= i < k + 1 implies is_unicode_whitespace(#[trigger] s[i]) by {
            if i > 0 {
                assert(s[i] == r[i - 1]);
            }
        }
        k + 1
    } else {
        assert(s.skip(0) =~= s);
        0
    }
}

/// What trimming the end drops is whitespace.
proof fn lemma_trim_end_drops_whitespace(t: Seq<char>)
    ensures
        trim_end_chars(t).len() <= t.len(),
        forall|i: int| trim_end_chars(t).len() <= i < t.len() ==> is_unicode_whitespace(#[trigger] t[i]),
    decreases t.len(),
{
    if t.len() > 0 && is_unicode_whitespace(t.last()) {
        let r = t.drop_last();
        lemma_trim_end_drops_whitespace(r);
        assert forall|i: int| trim_end_chars(t).len() <= i < t.len() implies is_unicode_whitespace(#[trigger] t[i]) by {
            if i < t.len() - 1 {
                assert(t[i] == r[i]);
            }
        }
    }
}

/// Trimming keeps a stretch of the text that neither starts nor ends with whitespace, and
/// drops only whitespace before and after it.
pub proof fn lemma_trim_drops_only_outer_whitespace(s: Seq<char>)
    ensures
        exists|start: int|
            #![trigger s.skip(start)]
            0 <= start && start + trim_chars(s).len() <= s.len() && trim_chars(s) == s.skip(start).take(
                trim_chars(s).len() as int,
            ) && (forall|i: int| 0 <= i < start ==> is_unicode_whitespace(#[trigger] s[i])) && (forall|i: int|
                start + trim_chars(s).len() <= i < s.len() ==> is_unicode_whitespace(#[trigger] s[i])),
        trim_chars(s).len() > 0 ==> !is_unicode_whitespace(trim_chars(s)[0]) && !is_unicode_whitespace(
            trim_chars(s).last(),
        ),
{
    let k = trim_start_count(s);
    let a = trim_start_chars(s);
    let t = trim_chars(s);
    lemma_trim_start_shape(s);
    lemma_trim_end_shape(a);
    lemma_trim_end_drops_whitespace(a);
    assert(t =~= s.skip(k).take(t.len() as int)) by {
        assert forall|i: int| 0 <= i < t.len() implies #[trigger] t[i] == s.skip(k).take(t.len() as int)[i] by {
            assert(t[i] == a[i]);
            assert(a[i] == s[k + i]);
        }
    }
    assert forall|i: int| k + t.len() <= i < s.len() implies is_unicode_whitespace(#[trigger] s[i]) by {
        assert(s[i] == a[i - k]);
    }
    if t.len() > 0 {
        assert(t[0] == a[0]);
    }
}

/// `str::trim`: the slice without leading and trailing whitespace, whitespace being what
/// the Unicode `White_Space` property names (as the std documentation says).
#[verifier::external_body]
pub(crate) fn str_trim(s: &str) -> (t: &str)
    ensures
        t@ == trim_chars(s@),
{
    s.trim()
}

/// The length in bytes of a string's UTF-8 encoding.
pub fn text_len(s: &String) -> (n: usize)
    ensures
        n == bytes_of(s@).len(),
{
    byte_len(s)
}

/// Whether `edit_text` may be called with this text, cursor and key: every insertion or
/// removal it would make falls on a character boundary.
pub fn edit_is_safe(text: &String, cursor: usize, key: Key) -> (ok: bool)
    ensures
        ok == edit_is_defined(bytes_of(text@), cursor as int, key),
{
    let n = byte_len(text);
    match key {
        Key::Char(_) => n <= (isize::MAX as usize) - 4 && text.as_str().is_char_boundary(cursor),
        Key::Backspace => cursor == 0 || (cursor - 1 < n && text.as_str().is_char_boundary(cursor - 1)),
        Key::Delete => cursor >= n || text.as_str().is_char_boundary(cursor),
        _ => true,
    }
}


/// Typing a character and then pressing Backspace gives back the text and the cursor.
pub proof fn lemma_backspace_undoes_typing(s: Seq<char>, cursor: int, c: char)
    requires
        edit_is_defined(bytes_of(s), cursor, Key::Char(c)),
    ensures
        ({
            let b = bytes_of(s);
            let b1 = edited_bytes(b, cursor, Key::Char(c));
            let c1 = edited_cursor(b, cursor, Key::Char(c));
            &&& edit_is_defined(b1, c1, Key::Backspace)
            &&& edited_bytes(b1, c1, Key::Backspace) == b
            &&& edited_cursor(b1, c1, Key::Backspace) == cursor
        }),
{
    let b = bytes_of(s);
    let e = encode_utf8(seq![c]);
    encode_utf8_valid_utf8(s);
    encode_utf8_valid_utf8(seq![c]);
    encode_utf8_first_scalar(seq![c]);
    lemma_boundary_in_range(b, cursor);
    assert(e =~= encode_scalar(c as u32)) by {
        assert(seq![c].drop_first() =~= Seq::<char>::empty());
        assert(seq![c][0] == c);
        assert(encode_utf8(Seq::<char>::empty()) =~= Seq::<u8>::empty());
        assert(e == encode_scalar(seq![c][0] as u32) + encode_utf8(seq![c].drop_first()));
    }
    let b1 = b.take(cursor) + e + b.skip(cursor);
    assert(b1 == insert_char_at(b, cursor, c));
    // the new text is valid UTF-8 and `cursor` is still a boundary in it
    assert(valid_utf8(b.subrange(0, cursor)));
    assert(valid_utf8(b.subrange(cursor, b.len() as int)));
    assert(b.take(cursor) == b.subrange(0, cursor));
    assert(b.skip(cursor) == b.subrange(cursor, b.len() as int));
    assert(valid_utf8(b.take(cursor) + e));
    assert(valid_utf8(b1));
    assert(b1[cursor] == e[0]);
    if cursor > 0 {
        is_char_boundary_iff_is_leading_byte(b1, cursor);
        let r = e + b.skip(cursor);
        assert(r[0] == e[0]);
    }
    // removing the character at `cursor` takes away exactly the encoding of `c`
    let rest = b1.skip(cursor);
    assert(rest =~= e + b.skip(cursor));
    assert(rest[0] == e[0]);
    assert(length_of_first_scalar(rest) == length_of_first_scalar(e));
    assert(b1.take(cursor) =~= b.take(cursor));
    assert(b1.skip(cursor + e.len()) =~= b.skip(cursor));
    assert(remove_char_at(b1, cursor) =~= b);
}

/// An edit keeps the cursor within the text.
pub proof fn lemma_edit_keeps_cursor_in_text(s: Seq<char>, cursor: int, key: Key)
    requires
        0 <= cursor <= bytes_of(s).len(),
        edit_is_defined(bytes_of(s), cursor, key),
    ensures
        0 <= edited_cursor(bytes_of(s), cursor, key) <= edited_bytes(bytes_of(s), cursor, key).len(),
{
    let b = bytes_of(s);
    encode_utf8_valid_utf8(s);
    match key {
        Key::Char(c) => {
            encode_utf8_first_scalar(seq![c]);
        },
        Key::Backspace => {
            if cursor > 0 {
                lemma_removed_char_fits(b, cursor - 1);
            }
        },
        Key::Delete => {
            if cursor < b.len() {
                lemma_removed_char_fits(b, cursor);
            }
        },
        _ => {},
    }
}

/// The moving keys leave the text as it is and move the byte cursor: Left one byte back
/// (not before the start), Right one byte on (not past the end), Home to the start, End to
/// the end. Up, Down and other keys change neither text nor cursor.
pub proof fn lemma_cursor_keys(b: Seq<u8>, cursor: int)
    requires
        0 <= cursor <= b.len(),
    ensures
        cursor > 0 ==> edited_cursor(b, cursor, Key::Left) == cursor - 1,
        cursor == 0 ==> edited_cursor(b, cursor, Key::Left) == 0,
        cursor < b.len() ==> edited_cursor(b, cursor, Key::Right) == cursor + 1,
        cursor == b.len() ==> edited_cursor(b, cursor, Key::Right) == b.len(),
        edited_cursor(b, cursor, Key::Home) == 0,
        edited_cursor(b, cursor, Key::End) == b.len(),
        edited_cursor(b, cursor, Key::Up) == cursor,
        edited_cursor(b, cursor, Key::Down) == cursor,
        edited_cursor(b, cursor, Key::Other) == cursor,
        edited_bytes(b, cursor, Key::Left) == b,
        edited_bytes(b, cursor, Key::Right) == b,
        edited_bytes(b, cursor, Key::Home) == b,
        edited_bytes(b, cursor, Key::End) == b,
        edited_bytes(b, cursor, Key::Up) == b,
        edited_bytes(b, cursor, Key::Down) == b,
        edited_bytes(b, cursor, Key::Other) == b,
{
}

/// Typing a character puts its UTF-8 bytes at the cursor, everything before the cursor
/// staying before it and everything after it after it, and moves the cursor one on.
pub proof fn lemma_typing_inserts_at_cursor(b: Seq<u8>, cursor: int, c: char)
    requires
        0 <= cursor <= b.len(),
    ensures
        edited_bytes(b, cursor, Key::Char(c)).len() == b.len() + encode_utf8(seq![c]).len(),
        edited_bytes(b, cursor, Key::Char(c)).take(cursor) == b.take(cursor),
        edited_bytes(b, cursor, Key::Char(c)).subrange(cursor, cursor + encode_utf8(seq![c]).len())
            == encode_utf8(seq![c]),
        edited_bytes(b, cursor, Key::Char(c)).skip(cursor + encode_utf8(seq![c]).len()) == b.skip(cursor),
        edited_cursor(b, cursor, Key::Char(c)) == cursor + 1,
{
    let e = encode_utf8(seq![c]);
    let r = edited_bytes(b, cursor, Key::Char(c));
    assert(r.take(cursor) =~= b.take(cursor));
    assert(r.subrange(cursor, cursor + e.len()) =~= e);
    assert(r.skip(cursor + e.len()) =~= b.skip(cursor));
}

/// In an ASCII text, Left at the end and then typing a character puts the character just
/// before the last one.
pub proof fn lemma_typing_after_left_at_end(s: Seq<char>, c: char, s2: Seq<char>)
    requires
        is_ascii_chars(s),
        s.len() > 0,
        c <= '\u{7f}',
        bytes_of(s2) == edited_bytes(
            bytes_of(s),
            edited_cursor(bytes_of(s), bytes_of(s).len() as int, Key::Left),
            Key::Char(c),
        ),
    ensures
        edited_cursor(bytes_of(s), bytes_of(s).len() as int, Key::Left) == s.len() - 1,
        s2 == s.take(s.len() - 1).push(c).push(s.last()),
{
    let n = s.len() as int;
    let b = bytes_of(s);
    lemma_ascii_bytes(s);
    is_ascii_chars_encode_utf8(s);
    let t = s.take(n - 1).push(c).push(s.last());
    assert(is_ascii_chars(t)) by {
        assert forall|i: int| 0 <= i < t.len() implies '\0' <= #[trigger] t[i] <= '\u{7f}' by {
            if i < n - 1 {
                assert(t[i] == s[i]);
            } else if i == n - 1 {
                assert(t[i] == c);
            } else {
                assert(t[i] == s[n - 1]);
            }
        }
    }
    is_ascii_chars_encode_utf8(t);
    let e = encode_utf8(seq![c]);
    assert(is_ascii_chars(seq![c])) by {
        assert forall|i: int| 0 <= i < seq![c].len() implies '\0' <= #[trigger] seq![c][i] <= '\u{7f}' by {}
    }
    is_ascii_chars_encode_utf8(seq![c]);
    assert(e.len() == 1);
    assert(e[0] == seq![c][0] as u8);
    let r = edited_bytes(b, n - 1, Key::Char(c));
    assert(r =~= bytes_of(t)) by {
        assert(r.len() == n + 1);
        assert forall|i: int| 0 <= i < r.len() implies #[trigger] r[i] == bytes_of(t)[i] by {
            assert(bytes_of(t)[i] == t[i] as u8);
            if i < n - 1 {
                assert(r[i] == b[i]);
                assert(b[i] == s[i] as u8);
                assert(t[i] == s[i]);
            } else if i == n - 1 {
                assert(r[i] == e[0]);
                assert(t[i] == c);
            } else {
                assert(r[i] == b[n - 1]);
                assert(b[n - 1] == s[n - 1] as u8);
                assert(t[i] == s[n - 1]);
            }
        }
    }
    encode_utf8_decode_utf8(s2);
    encode_utf8_decode_utf8(t);
}

/// In an ASCII text, Backspace removes the character before the cursor and moves the
/// cursor back over it, and Delete removes the character at the cursor and leaves the
/// cursor; at the start (Backspace) or the end (Delete) nothing changes.
pub proof fn lemma_ascii_removal(s: Seq<char>, cursor: int, key: Key, s2: Seq<char>)
    requires
        is_ascii_chars(s),
        0 <= cursor <= s.len(),
        key == Key::Backspace || key == Key::Delete,
        bytes_of(s2) == edited_bytes(bytes_of(s), cursor, key),
    ensures
        key == Key::Backspace && cursor > 0 ==> s2 == s.remove(cursor - 1) && edited_cursor(
            bytes_of(s),
            cursor,
            key,
        ) == cursor - 1,
        key == Key::Backspace && cursor == 0 ==> s2 == s && edited_cursor(bytes_of(s), cursor, key) == 0,
        key == Key::Delete && cursor < s.len() ==> s2 == s.remove(cursor) && edited_cursor(
            bytes_of(s),
            cursor,
            key,
        ) == cursor,
        key == Key::Delete && cursor == s.len() ==> s2 == s && edited_cursor(bytes_of(s), cursor, key)
            == cursor,
{
    let b = bytes_of(s);
    lemma_ascii_bytes(s);
    is_ascii_chars_encode_utf8(s);
    encode_utf8_decode_utf8(s2);
    encode_utf8_decode_utf8(s);
    let removes = (key == Key::Backspace && cursor > 0) || (key == Key::Delete && cursor < s.len());
    if removes {
        let at = if key == Key::Backspace { cursor - 1 } else { cursor };
        let t = s.remove(at);
        assert(is_ascii_chars(t)) by {
            assert forall|i: int| 0 <= i < t.len() implies '\0' <= #[trigger] t[i] <= '\u{7f}' by {
                if i < at {
                    assert(t[i] == s[i]);
                } else {
                    assert(t[i] == s[i + 1]);
                }
            }
        }
        is_ascii_chars_encode_utf8(t);
        assert(b.skip(at)[0] == b[at]);
        assert(b[at] <= 0x7f);
        assert(length_of_first_scalar(b.skip(at)) == 1);
        let r = edited_bytes(b, cursor, key);
        assert(r =~= bytes_of(t)) by {
            assert forall|i: int| 0 <= i < r.len() implies #[trigger] r[i] == bytes_of(t)[i] by {
                assert(bytes_of(t)[i] == t[i] as u8);
                if i < at {
                    assert(r[i] == b[i]);
                    assert(b[i] == s[i] as u8);
                    assert(t[i] == s[i]);
                } else {
                    assert(r[i] == b[i + 1]);
                    assert(b[i + 1] == s[i + 1] as u8);
                    assert(t[i] == s[i + 1]);
                }
            }
        }
        encode_utf8_decode_utf8(t);
    }
}

/// The character at a boundary lies within the text.
proof fn lemma_removed_char_fits(b: Seq<u8>, i: int)
    requires
        valid_utf8(b),
        0 <= i < b.len(),
        is_char_boundary(b, i),
    ensures
        i + length_of_first_scalar(b.skip(i)) <= b.len(),
        remove_char_at(b, i).len() == b.len() - length_of_first_scalar(b.skip(i)),
        length_of_first_scalar(b.skip(i)) >= 1,
{
    assert(valid_utf8(b.subrange(i, b.len() as int)));
    assert(b.skip(i) == b.subrange(i, b.len() as int));
    reveal_with_fuel(valid_utf8, 1);
}


/// The bytes of an ASCII text are its characters, one byte each.
proof fn lemma_ascii_bytes(s: Seq<char>)
    requires
        is_ascii_chars(s),
    ensures
        bytes_of(s).len() == s.len(),
        forall|i: int| 0 <= i < s.len() ==> #[trigger] bytes_of(s)[i] <= 0x7f,
{
    is_ascii_chars_encode_utf8(s);
    assert forall|i: int| 0 <= i < s.len() implies #[trigger] bytes_of(s)[i] <= 0x7f by {
        assert(s[i] <= '\u{7f}');
        assert(s[i] as u8 == bytes_of(s)[i]);
    }
}

/// A text whose bytes are all below 0x80 is ASCII.
proof fn lemma_ascii_from_bytes(s: Seq<char>)
    requires
        forall|i: int| 0 <= i < bytes_of(s).len() ==> #[trigger] bytes_of(s)[i] <= 0x7f,
    ensures
        is_ascii_chars(s),
        s.len() == bytes_of(s).len(),
{
    let b = bytes_of(s);
    let t = Seq::new(b.len(), |i: int| b[i] as char);
    assert forall|i: int| 0 <= i < t.len() implies '\0' <= #[trigger] t[i] <= '\u{7f}' by {
        assert(b[i] <= 0x7f);
    }
    assert(is_ascii_chars(t));
    is_ascii_chars_encode_utf8(t);
    assert forall|i: int| 0 <= i < t.len() implies #[trigger] bytes_of(t)[i] == b[i] by {
        assert(t[i] as u8 == bytes_of(t)[i]);
        assert(t[i] == b[i] as char);
    }
    assert(bytes_of(t) =~= b);
    encode_utf8_decode_utf8(s);
    encode_utf8_decode_utf8(t);
}

/// In an ASCII text every position up to its end is a character boundary.
proof fn lemma_ascii_boundaries(s: Seq<char>, i: int)
    requires
        is_ascii_chars(s),
        0 <= i <= s.len(),
    ensures
        is_char_boundary(bytes_of(s), i),
{
    let b = bytes_of(s);
    lemma_ascii_bytes(s);
    encode_utf8_valid_utf8(s);
    if i < b.len() {
        is_char_boundary_iff_is_leading_byte(b, i);
        assert(b[i] <= 0x7f);
    } else {
        is_char_boundary_start_end_of_seq(b);
    }
}

/// Editing an ASCII text with ASCII characters never leaves a character boundary, keeps
/// the text ASCII and keeps the cursor within it.
pub proof fn lemma_ascii_editing(s: Seq<char>, cursor: int, key: Key, s2: Seq<char>)
    requires
        is_ascii_chars(s),
        0 <= cursor <= s.len(),
        s.len() + 4 <= isize::MAX,
        key matches Key::Char(c) ==> c <= '\u{7f}',
        bytes_of(s2) == edited_bytes(bytes_of(s), cursor, key),
    ensures
        edit_is_defined(bytes_of(s), cursor, key),
        is_ascii_chars(s2),
        0 <= edited_cursor(bytes_of(s), cursor, key) <= s2.len(),
{
    let b = bytes_of(s);
    lemma_ascii_bytes(s);
    encode_utf8_valid_utf8(s);
    lemma_ascii_boundaries(s, cursor);
    if cursor > 0 {
        lemma_ascii_boundaries(s, cursor - 1);
    }
    lemma_edit_keeps_cursor_in_text(s, cursor, key);
    let b2 = edited_bytes(b, cursor, key);
    match key {
        Key::Char(c) => {
            let e = encode_utf8(seq![c]);
            assert(is_ascii_chars(seq![c])) by {
                assert forall|i: int| 0 <= i < seq![c].len() implies '\0' <= #[trigger] seq![c][i] <= '\u{7f}' by {}
            }
            is_ascii_chars_encode_utf8(seq![c]);
            assert(e.len() == 1);
            assert(e[0] == seq![c][0] as u8);
            assert forall|i: int| 0 <= i < b2.len() implies #[trigger] b2[i] <= 0x7f by {
                if i < cursor {
                    assert(b2[i] == b[i]);
                } else if i == cursor {
                    assert(b2[i] == e[0]);
                } else {
                    assert(b2[i] == b[i - 1]);
                }
            }
        },
        Key::Backspace | Key::Delete => {
            let at = if key == Key::Backspace { cursor - 1 } else { cursor };
            if (key == Key::Backspace && cursor > 0) || (key == Key::Delete && cursor < b.len()) {
                assert(b.skip(at)[0] == b[at]);
                assert(b[at] <= 0x7f);
                assert(length_of_first_scalar(b.skip(at)) == 1);
                assert forall|i: int| 0 <= i < b2.len() implies #[trigger] b2[i] <= 0x7f by {
                    if i < at {
                        assert(b2[i] == b[i]);
                    } else {
                        assert(b2[i] == b[i + 1]);
                    }
                }
            } else {
                assert(b2 == b);
            }
        },
        _ => {
            assert(b2 == b);
        },
    }
    lemma_ascii_from_bytes(s2);
}

} // verus!
