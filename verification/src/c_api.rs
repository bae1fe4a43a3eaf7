use vstd::prelude::*;
use vstd::string::StringSliceAdditionalSpecFns;

verus! {

/// The characters that `char::is_whitespace` accepts: those of the Unicode property
/// `White_Space`.
pub open spec fn is_white_space(c: char) -> bool {
    ('\u{9}' <= c && c <= '\u{d}') || c == ' ' || c == '\u{85}' || c == '\u{a0}' || c == '\u{1680}'
        || ('\u{2000}' <= c && c <= '\u{200a}') || c == '\u{2028}' || c == '\u{2029}' || c
        == '\u{202f}' || c == '\u{205f}' || c == '\u{3000}'
}

fn white_space(c: char) -> (b: bool)
    ensures
        b == is_white_space(c),
{
    ('\u{9}' <= c && c <= '\u{d}') || c == ' ' || c == '\u{85}' || c == '\u{a0}' || c == '\u{1680}'
        || ('\u{2000}' <= c && c <= '\u{200a}') || c == '\u{2028}' || c == '\u{2029}' || c
        == '\u{202f}' || c == '\u{205f}' || c == '\u{3000}'
}

/// The index of the first character at or after `i` that is not white space.
pub open spec fn trim_start_at(s: Seq<char>, i: int) -> int
    decreases s.len() - i,
{
    if i < s.len() && is_white_space(s[i]) {
        trim_start_at(s, i + 1)
    } else {
        i
    }
}

/// The index just past the last character before `j` that is not white space, going no
/// lower than `lo`.
pub open spec fn trim_end_at(s: Seq<char>, lo: int, j: int) -> int
    decreases j - lo,
{
    if lo < j && is_white_space(s[j - 1]) {
        trim_end_at(s, lo, j - 1)
    } else {
        j
    }
}

/// The text with white space removed at both ends, as `str::trim` does.
pub open spec fn trim_spec(s: Seq<char>) -> Seq<char> {
    let a = trim_start_at(s, 0);
    s.subrange(a, trim_end_at(s, a, s.len() as int))
}

/// The pieces of a text between commas, as `str::split(',')` gives them.
pub open spec fn split_commas(s: Seq<char>) -> Seq<Seq<char>>
    decreases s.len(),
{
    if s.len() == 0 {
        seq![Seq::empty()]
    } else {
        let rest = split_commas(s.drop_last());
        if s.last() == ',' {
            rest.push(Seq::empty())
        } else {
            rest.update(rest.len() - 1, rest.last().push(s.last()))
        }
    }
}

/// The parameter names of a comma-separated list, each trimmed of white space; none for an
/// empty list.
pub open spec fn param_list_spec(s: Seq<char>) -> Seq<Seq<char>> {
    if s.len() == 0 {
        Seq::empty()
    } else {
        split_commas(s).map_values(|p: Seq<char>| trim_spec(p))
    }
}

proof fn lemma_split_commas_nonempty(s: Seq<char>)
    ensures
        split_commas(s).len() >= 1,
    decreases s.len(),
{
    if s.len() > 0 {
        lemma_split_commas_nonempty(s.drop_last());
    }
}

proof fn lemma_trim_start_bounds(s: Seq<char>, i: int)
    requires
        0 <= i <= s.len(),
    ensures
        i <= trim_start_at(s, i) <= s.len(),
    decreases s.len() - i,
{
    if i < s.len() && is_white_space(s[i]) {
        lemma_trim_start_bounds(s, i + 1);
    }
}

/// A text trimmed of white space at both ends.
fn trim(chars: &Vec<char>) -> (r: String)
    ensures
        r@ == trim_spec(chars@),
{
    let ghost s = chars@;
    let mut a: usize = 0;
    while a < chars.len() && white_space(chars[a])
        invariant
            a <= s.len(),
            s == chars@,
            trim_start_at(s, 0) == trim_start_at(s, a as int),
        decreases s.len() - a,
    {
        a = a + 1;
    }
    let mut b: usize = chars.len();
    proof {
        lemma_trim_start_bounds(s, a as int);
    }
    while a < b && white_space(chars[b - 1])
        invariant
            a <= b <= s.len(),
            s == chars@,
            a == trim_start_at(s, 0),
            trim_end_at(s, a as int, s.len() as int) == trim_end_at(s, a as int, b as int),
        decreases b - a,
    {
        b = b - 1;
    }
    crate::types::string_from_chars(chars, a, b)
}

/// The parameter names of a comma-separated list (`"x, y"` gives `x` and `y`), each trimmed of
/// white space; none for an empty list.
pub fn split_param_list(s: &str) -> (r: Vec<String>)
    ensures
        r@.len() == param_list_spec(s@).len(),
        forall|k: int| 0 <= k < r@.len() ==> #[trigger] r@[k]@ == param_list_spec(s@)[k],
{
    let chars = crate::types::chars_of(s);
    let ghost cs = chars@;
    let mut out: Vec<String> = Vec::new();
    if chars.len() == 0 {
        return out;
    }
    let mut piece: Vec<char> = Vec::new();
    let mut i: usize = 0;
    proof {
        assert(cs.take(0) =~= Seq::<char>::empty());
    }
    while i < chars.len()
        invariant
            i <= cs.len(),
            cs == chars@,
            cs == s@,
            cs.len() > 0,
            ({
                let parts = split_commas(cs.take(i as int));
                &&& out@.len() + 1 == parts.len()
                &&& forall|k: int| 0 <= k < out@.len() ==> #[trigger] out@[k]@ == trim_spec(parts[k])
                &&& piece@ == parts.last()
            }),
        decreases cs.len() - i,
    {
        proof {
            assert(cs.take(i + 1).drop_last() =~= cs.take(i as int));
            assert(cs.take(i + 1).last() == cs[i as int]);
            lemma_split_commas_nonempty(cs.take(i as int));
        }
        let c = chars[i];
        if c == ',' {
            let t = trim(&piece);
            out.push(t);
            piece = Vec::new();
        } else {
            piece.push(c);
        }
        i = i + 1;
    }
    proof {
        assert(cs.take(i as int) =~= cs);
        lemma_split_commas_nonempty(cs);
    }
    let t = trim(&piece);
    out.push(t);
    proof {
        let parts = split_commas(cs);
        assert forall|k: int| 0 <= k < out@.len() implies #[trigger] out@[k]@ == param_list_spec(s@)[k] by {
            assert(param_list_spec(s@)[k] == trim_spec(parts[k]));
        }
    }
    out
}

/// The arena size to reserve for a batch: 512 bytes for each expression, 2 for each character
/// of their text and 64 for each parameter, with half as much again to spare.
pub open spec fn arena_size_spec(expression_count: nat, total_expr_length: nat, param_count: nat) -> nat {
    let total = expression_count * 512 + total_expr_length * 2 + param_count * 64;
    total + total / 2
}

/// Estimates the arena size a batch needs; the number of evaluations it will see does not
/// change the estimate.
pub fn expr_estimate_arena_size(
    expression_count: usize,
    total_expr_length: usize,
    param_count: usize,
    estimated_iterations: usize,
) -> (r: usize)
    requires
        arena_size_spec(expression_count as nat, total_expr_length as nat, param_count as nat)
            <= usize::MAX,
    ensures
        r == arena_size_spec(expression_count as nat, total_expr_length as nat, param_count as nat),
{
    let expr_overhead = expression_count * 512;
    let string_storage = total_expr_length * 2;
    let param_storage = param_count * 64;
    let total = expr_overhead + string_storage + param_storage;
    total + total / 2
}

/// A C error buffer of `size` bytes holding a message whose UTF-8 bytes are `bytes`: the
/// first `size - 1` of them at most, then zeros, so that the buffer always ends in a zero.
pub open spec fn error_buffer(bytes: Seq<u8>, size: nat) -> Seq<u8> {
    Seq::new(
        size,
        |i: int|
            if i < bytes.len() && i < size - 1 {
                bytes[i]
            } else {
                0u8
            },
    )
}

/// Copies `msg` into a NUL-terminated buffer of `size` bytes, cutting it where it does not
/// fit.
pub fn copy_to_error_buffer(msg: &str, size: usize) -> (buf: Vec<u8>)
    requires
        size >= 1,
    ensures
        buf@ == error_buffer(msg.spec_bytes(), size as nat),
{
    let bytes = msg.as_bytes();
    let copy_len = if bytes.len() < size - 1 {
        bytes.len()
    } else {
        size - 1
    };
    let mut buf: Vec<u8> = Vec::new();
    let mut i: usize = 0;
    while i < size
        invariant
            i <= size,
            size >= 1,
            bytes@ == msg.spec_bytes(),
            copy_len <= bytes@.len(),
            copy_len <= size - 1,
            copy_len == bytes@.len() || copy_len == size - 1,
            buf@.len() == i,
            forall|k: int| 0 <= k < i ==> buf@[k] == error_buffer(msg.spec_bytes(), size as nat)[k],
        decreases size - i,
    {
        if i < copy_len {
            buf.push(bytes[i]);
        } else {
            buf.push(0u8);
        }
        i = i + 1;
    }
    assert(buf@ =~= error_buffer(msg.spec_bytes(), size as nat));
    buf
}

} // verus!
