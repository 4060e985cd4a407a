use vstd::prelude::*;

verus! {

/// The code of a character after ASCII lower-casing.
pub open spec fn ascii_lower(c: char) -> u32 {
    if 'A' <= c && c <= 'Z' {
        (c as u32 + 32) as u32
    } else {
        c as u32
    }
}

/// Two character sequences that are equal up to ASCII case.
pub open spec fn eq_ignore_ascii_case(a: Seq<char>, b: Seq<char>) -> bool {
    a.len() == b.len() && forall|i: int| 0 <= i < a.len() ==> ascii_lower(a[i]) == ascii_lower(b[i])
}

/// An extension that marks a media file: `mp3` or `mp4`, in any ASCII case.
pub open spec fn is_media_ext(ext: Seq<char>) -> bool {
    eq_ignore_ascii_case(ext, seq!['m', 'p', '3']) || eq_ignore_ascii_case(ext, seq!['m', 'p', '4'])
}

fn lower_code(c: char) -> (r: u32)
    ensures
        r == ascii_lower(c),
{
    if 'A' <= c && c <= 'Z' {
        c as u32 + 32
    } else {
        c as u32
    }
}

fn matches_ignore_case(ext: &str, n: usize, target: [char; 3]) -> (r: bool)
    requires
        n == ext@.len(),
    ensures
        r == eq_ignore_ascii_case(ext@, seq![target[0], target[1], target[2]]),
{
    let ghost t = seq![target[0], target[1], target[2]];
    if n != 3 {
        return false;
    }
    let mut i: usize = 0;
    while i < 3
        invariant
            n == 3,
            n == ext@.len(),
            t == seq![target[0], target[1], target[2]],
            i <= 3,
            forall|j: int| 0 <= j < i ==> ascii_lower(ext@[j]) == ascii_lower(t[j]),
        decreases 3 - i,
    {
        if lower_code(ext.get_char(i)) != lower_code(target[i]) {
            assert(ascii_lower(ext@[i as int]) != ascii_lower(t[i as int]));
            return false;
        }
        i = i + 1;
    }
    true
}

/// Whether a file extension marks a media file (`mp3` or `mp4`, any ASCII case).
pub fn is_media_extension(ext: &str) -> (r: bool)
    ensures
        r == is_media_ext(ext@),
{
    let n = ext.unicode_len();
    matches_ignore_case(ext, n, ['m', 'p', '3']) || matches_ignore_case(ext, n, ['m', 'p', '4'])
}

} // verus!
