//! File names typed into the save dialog.
use vstd::prelude::*;
use crate::text::{push_char, push_str};

verus! {

/// Whether a character has the Unicode White_Space property, as `char::is_whitespace` tells:
/// tab to carriage return, space, next line, no-break space, ogham space mark, the spaces from
/// en quad to hair space, line and paragraph separators, narrow no-break space, medium
/// mathematical space and ideographic space.
pub open spec fn unicode_whitespace(c: char) -> bool {
    let u = c as u32;
    ||| 0x09 <= u <= 0x0D
    ||| u == 0x20
    ||| u == 0x85
    ||| u == 0xA0
    ||| u == 0x1680
    ||| 0x2000 <= u <= 0x200A
    ||| u == 0x2028
    ||| u == 0x2029
    ||| u == 0x202F
    ||| u == 0x205F
    ||| u == 0x3000
}

/// Whether a character has the White_Space property (what `char::is_whitespace` tells).
fn char_is_whitespace(c: char) -> (b: bool)
    ensures
        b == unicode_whitespace(c),
{
    let u = c as u32;
    (0x09 <= u && u <= 0x0D) || u == 0x20 || u == 0x85 || u == 0xA0 || u == 0x1680 || (0x2000 <= u && u
        <= 0x200A) || u == 0x2028 || u == 0x2029 || u == 0x202F || u == 0x205F || u == 0x3000
}

/// The text without its leading white space.
pub open spec fn trim_start(s: Seq<char>) -> Seq<char>
    decreases s.len(),
{
    if s.len() > 0 && unicode_whitespace(s[0]) {
        trim_start(s.drop_first())
    } else {
        s
    }
}

/// The text without its trailing white space.
pub open spec fn trim_end(s: Seq<char>) -> Seq<char>
    decreases s.len(),
{
    if s.len() > 0 && unicode_whitespace(s.last()) {
        trim_end(s.drop_last())
    } else {
        s
    }
}

/// The text without leading and trailing white space (`str::trim`).
pub open spec fn trimmed(s: Seq<char>) -> Seq<char> {
    trim_end(trim_start(s))
}

/// Whether the text ends in ".json".
pub open spec fn has_json_suffix(s: Seq<char>) -> bool {
    s.len() >= 5 && s.subrange(s.len() - 5, s.len() as int) == ".json"@
}

/// The file a project is saved to: the typed name trimmed, with ".json" added unless it is
/// there already.
pub open spec fn project_file_name(input: Seq<char>) -> Seq<char> {
    let t = trimmed(input);
    if has_json_suffix(t) {
        t
    } else {
        t + ".json"@
    }
}

/// The text without leading and trailing white space.
pub fn trim(s: &str) -> (r: String)
    ensures
        r@ == trimmed(s@),
{
    let len = s.unicode_len();
    let mut a: usize = 0;
    assert(s@.subrange(0, len as int) =~= s@);
    while a < len && char_is_whitespace(s.get_char(a))
        invariant
            len == s@.len(),
            a <= len,
            trim_start(s@) == trim_start(s@.subrange(a as int, len as int)),
        decreases len - a,
    {
        assert(s@.subrange(a as int, len as int).drop_first() =~= s@.subrange(a + 1, len as int));
        a += 1;
    }
    assert(trim_start(s@) == s@.subrange(a as int, len as int));
    let mut b: usize = len;
    while b > a && char_is_whitespace(s.get_char(b - 1))
        invariant
            len == s@.len(),
            a <= b <= len,
            trim_end(s@.subrange(a as int, len as int)) == trim_end(s@.subrange(a as int, b as int)),
        decreases b,
    {
        assert(s@.subrange(a as int, b as int).drop_last() =~= s@.subrange(a as int, b - 1));
        b -= 1;
    }
    let mut r = String::new();
    let mut i = a;
    while i < b
        invariant
            len == s@.len(),
            a <= i <= b <= len,
            r@ == s@.subrange(a as int, i as int),
        decreases b - i,
    {
        push_char(&mut r, s.get_char(i));
        i += 1;
        assert(r@ =~= s@.subrange(a as int, i as int));
    }
    r
}

/// The file a project is saved to, from the name typed in the save dialog.
pub fn project_file_name_of(input: &str) -> (name: String)
    ensures
        name@ == project_file_name(input@),
{
    let mut t = trim(input);
    let n = t.as_str().unicode_len();
    let tail_is_json = n >= 5 && t.as_str().get_char(n - 5) == '.' && t.as_str().get_char(n - 4) == 'j'
        && t.as_str().get_char(n - 3) == 's' && t.as_str().get_char(n - 2) == 'o' && t.as_str().get_char(n - 1) == 'n';
    proof {
        reveal_strlit(".json");
        if n >= 5 {
            if tail_is_json {
                assert(t@.subrange(n - 5, n as int) =~= ".json"@);
            } else {
                if t@.subrange(n - 5, n as int) == ".json"@ {
                    assert(t@.subrange(n - 5, n as int)[0] == '.');
                    assert(t@.subrange(n - 5, n as int)[1] == 'j');
                    assert(t@.subrange(n - 5, n as int)[2] == 's');
                    assert(t@.subrange(n - 5, n as int)[3] == 'o');
                    assert(t@.subrange(n - 5, n as int)[4] == 'n');
                }
            }
        }
    }
    if !tail_is_json {
        push_str(&mut t, ".json");
    }
    t
}

} // verus!
