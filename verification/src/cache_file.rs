//! The format in which a snapshot is persisted.
//!
//! A file holds, in this order: the magic text, a splitter byte, the page,
//! the splitter byte again, and the stylesheet. The splitter byte never
//! occurs in text, so it cannot be mistaken for a part of the page.

use vstd::prelude::*;
use vstd::string::*;
use vstd::utf8::*;

verus! {

/// The byte that separates the parts of a file. It occurs in no valid text.
pub const CACHE_FILE_SPLITTER: u8 = 0xFE;

/// The text that a file starts with.
pub const CACHE_FILE_MAGIC: &'static str = "ACTIVITY-GRAPH-CACHE-FILE";

/// The bytes that a file starts with.
pub open spec fn magic() -> Seq<u8> {
    encode_utf8(CACHE_FILE_MAGIC@)
}

/// The file that persists the page `html` with the stylesheet `css`.
pub open spec fn encoded(html: Seq<char>, css: Seq<char>) -> Seq<u8> {
    magic() + seq![CACHE_FILE_SPLITTER] + encode_utf8(html) + seq![CACHE_FILE_SPLITTER]
        + encode_utf8(css)
}

/// Whether the byte at `i` is a splitter.
pub open spec fn splits_at(bytes: Seq<u8>, i: int) -> bool {
    0 <= i < bytes.len() && bytes[i] == CACHE_FILE_SPLITTER
}

/// Calls `String::from_utf8` and drops the error.
///
/// Trusted: the conversion succeeds exactly on valid UTF-8, and the text it
/// returns is the one that the bytes encode.
#[verifier::external_body]
fn text_from_utf8(bytes: Vec<u8>) -> (r: Option<String>)
    ensures
        r.is_some() <==> valid_utf8(bytes@),
        r matches Some(text) ==> text@ == decode_utf8(bytes@),
{
    String::from_utf8(bytes).ok()
}

/// No byte of the magic text is a splitter.
proof fn lemma_magic_plain()
    ensures
        magic().len() == 25,
        forall|i: int| 0 <= i < magic().len() ==> magic()[i] != CACHE_FILE_SPLITTER,
{
    reveal_strlit("ACTIVITY-GRAPH-CACHE-FILE");
    let chars = CACHE_FILE_MAGIC@;
    assert(is_ascii_chars(chars));
    is_ascii_chars_encode_utf8(chars);
    assert forall|i: int| 0 <= i < magic().len() implies magic()[i] != CACHE_FILE_SPLITTER by {
        assert(chars[i] as u8 == magic()[i]);
    }
}

/// No byte of valid UTF-8 is a splitter.
pub proof fn lemma_text_has_no_splitter(bytes: Seq<u8>)
    requires
        valid_utf8(bytes),
    ensures
        forall|i: int| 0 <= i < bytes.len() ==> bytes[i] != CACHE_FILE_SPLITTER,
    decreases bytes.len(),
{
    if bytes.len() > 0 {
        let rest = pop_first_scalar(bytes);
        let width = length_of_first_scalar(bytes);
        lemma_text_has_no_splitter(rest);
        assert forall|i: int| 0 <= i < bytes.len() implies bytes[i] != CACHE_FILE_SPLITTER by {
            if i >= width {
                assert(rest[i - width] == bytes[i]);
            }
        }
    }
}

/// Where the parts of a file lie: the splitters stand right after the magic
/// text and right after the page, and nowhere else.
pub proof fn lemma_encoded_shape(html: Seq<char>, css: Seq<char>)
    ensures
        ({
            let file = encoded(html, css);
            let first = magic().len() as int;
            let second = first + 1 + encode_utf8(html).len();
            &&& file.len() == second + 1 + encode_utf8(css).len()
            &&& forall|i: int| splits_at(file, i) <==> i == first || i == second
            &&& file.subrange(0, first) == magic()
            &&& file.subrange(first + 1, second) == encode_utf8(html)
            &&& file.subrange(second + 1, file.len() as int) == encode_utf8(css)
        }),
{
    let file = encoded(html, css);
    let first = magic().len() as int;
    let second = first + 1 + encode_utf8(html).len();
    lemma_magic_plain();
    encode_utf8_valid_utf8(html);
    encode_utf8_valid_utf8(css);
    lemma_text_has_no_splitter(encode_utf8(html));
    lemma_text_has_no_splitter(encode_utf8(css));
    assert(file.subrange(0, first) =~= magic());
    assert(file.subrange(first + 1, second) =~= encode_utf8(html));
    assert(file.subrange(second + 1, file.len() as int) =~= encode_utf8(css));
    assert forall|i: int| splits_at(file, i) <==> i == first || i == second by {
        if 0 <= i < first {
            assert(file[i] == magic()[i]);
        } else if first < i < second {
            assert(file[i] == encode_utf8(html)[i - first - 1]);
        } else if second < i < file.len() {
            assert(file[i] == encode_utf8(css)[i - second - 1]);
        }
    }
}

/// A file persists one page and one stylesheet only.
pub proof fn lemma_encoded_injective(
    html: Seq<char>,
    css: Seq<char>,
    other_html: Seq<char>,
    other_css: Seq<char>,
)
    requires
        encoded(html, css) == encoded(other_html, other_css),
    ensures
        html == other_html,
        css == other_css,
{
    lemma_encoded_shape(html, css);
    lemma_encoded_shape(other_html, other_css);
    let file = encoded(html, css);
    let first = magic().len() as int;
    assert(splits_at(file, first + 1 + encode_utf8(html).len()));
    assert(splits_at(file, first + 1 + encode_utf8(other_html).len()));
    encode_utf8_decode_utf8(html);
    encode_utf8_decode_utf8(other_html);
    encode_utf8_decode_utf8(css);
    encode_utf8_decode_utf8(other_css);
}

/// Appends the bytes of `part` to `file`.
fn append(file: &mut Vec<u8>, part: &[u8])
    ensures
        final(file)@ == old(file)@ + part@,
{
    let mut i: usize = 0;
    while i < part.len()
        invariant
            i <= part.len(),
            file@ == old(file)@ + part@.take(i as int),
        decreases part.len() - i,
    {
        file.push(part[i]);
        i = i + 1;
        assert(file@ =~= old(file)@ + part@.take(i as int));
    }
    assert(part@.take(part.len() as int) =~= part@);
}

/// The file that persists the page `html` with the stylesheet `css`.
pub fn encode_snapshot(html: &str, css: &str) -> (file: Vec<u8>)
    ensures
        file@ == encoded(html@, css@),
{
    let mut file: Vec<u8> = Vec::new();
    append(&mut file, CACHE_FILE_MAGIC.as_bytes());
    file.push(CACHE_FILE_SPLITTER);
    append(&mut file, html.as_bytes());
    file.push(CACHE_FILE_SPLITTER);
    append(&mut file, css.as_bytes());
    assert(file@ =~= encoded(html@, css@));
    file
}

/// The bytes of `bytes` from `from` up to `to`.
fn part(bytes: &[u8], from: usize, to: usize) -> (r: Vec<u8>)
    requires
        from <= to <= bytes.len(),
    ensures
        r@ == bytes@.subrange(from as int, to as int),
{
    let mut r: Vec<u8> = Vec::new();
    let mut i: usize = from;
    while i < to
        invariant
            from <= i <= to <= bytes.len(),
            r@ == bytes@.subrange(from as int, i as int),
        decreases to - i,
    {
        r.push(bytes[i]);
        i = i + 1;
        assert(r@ =~= bytes@.subrange(from as int, i as int));
    }
    r
}

/// Whether `bytes` holds the magic text from its start up to `end`.
fn starts_with_magic(bytes: &[u8], end: usize) -> (r: bool)
    requires
        end <= bytes.len(),
    ensures
        r == (bytes@.subrange(0, end as int) == magic()),
{
    let expected = CACHE_FILE_MAGIC.as_bytes();
    if expected.len() != end {
        return false;
    }
    let mut i: usize = 0;
    while i < end
        invariant
            i <= end <= bytes.len(),
            expected@ == magic(),
            expected.len() == end,
            bytes@.subrange(0, i as int) == expected@.subrange(0, i as int),
        decreases end - i,
    {
        if bytes[i] != expected[i] {
            assert(bytes@.subrange(0, end as int)[i as int] != magic()[i as int]);
            return false;
        }
        i = i + 1;
        assert(bytes@.subrange(0, i as int) =~= expected@.subrange(0, i as int));
    }
    assert(expected@.subrange(0, end as int) =~= expected@);
    true
}

/// The places of the splitters in `bytes`, in ascending order.
fn splitters(bytes: &[u8]) -> (r: Vec<usize>)
    ensures
        forall|k: int| 0 <= k < r.len() ==> splits_at(bytes@, #[trigger] r[k] as int),
        forall|a: int, b: int| 0 <= a < b < r.len() ==> #[trigger] r[a] < #[trigger] r[b],
        forall|i: int| splits_at(bytes@, i) ==> exists|k: int| 0 <= k < r.len() && r[k] == i,
{
    let mut r: Vec<usize> = Vec::new();
    let mut i: usize = 0;
    while i < bytes.len()
        invariant
            i <= bytes.len(),
            forall|k: int| 0 <= k < r.len() ==> splits_at(bytes@, #[trigger] r[k] as int) && r[k] < i,
            forall|a: int, b: int| 0 <= a < b < r.len() ==> #[trigger] r[a] < #[trigger] r[b],
            forall|j: int|
                splits_at(bytes@, j) && j < i ==> exists|k: int| 0 <= k < r.len() && r[k] == j,
        decreases bytes.len() - i,
    {
        if bytes[i] == CACHE_FILE_SPLITTER {
            let ghost before = r@;
            r.push(i);
            assert forall|j: int| splits_at(bytes@, j) && j < i + 1 implies exists|k: int|
                0 <= k < r.len() && r[k] == j by {
                if j < i {
                    let k = choose|k: int| 0 <= k < before.len() && before[k] == j;
                    assert(r[k] == j);
                } else {
                    assert(r[r.len() - 1] == j);
                }
            }
        }
        i = i + 1;
    }
    r
}

/// Reads a persisted snapshot back. Anything that is not a file as
/// `encode_snapshot` writes it is refused: a file without the magic text, one
/// that the splitter does not cut into exactly three parts, or one whose
/// page or stylesheet is not text.
pub fn decode_snapshot(bytes: &[u8]) -> (r: Option<(String, String)>)
    ensures
        r matches Some((html, css)) ==> bytes@ == encoded(html@, css@),
        r.is_none() ==> forall|html: Seq<char>, css: Seq<char>| bytes@ != encoded(html, css),
{
    let cuts = splitters(bytes);
    if cuts.len() != 2 {
        assert forall|html: Seq<char>, css: Seq<char>| bytes@ != encoded(html, css) by {
            if bytes@ == encoded(html, css) {
                lemma_encoded_shape(html, css);
                let first = magic().len() as int;
                let second = first + 1 + encode_utf8(html).len();
                assert(splits_at(bytes@, first));
                assert(splits_at(bytes@, second));
                let a = choose|k: int| 0 <= k < cuts.len() && cuts[k] == first;
                let b = choose|k: int| 0 <= k < cuts.len() && cuts[k] == second;
                assert(cuts.len() >= 3);
                assert(splits_at(bytes@, cuts[0] as int));
                assert(splits_at(bytes@, cuts[1] as int));
                assert(splits_at(bytes@, cuts[2] as int));
            }
        }
        return None;
    }
    let first = cuts[0];
    let second = cuts[1];
    proof {
        assert(splits_at(bytes@, first as int));
        assert(splits_at(bytes@, second as int));
        assert(first < second);
        assert forall|i: int| splits_at(bytes@, i) implies i == first || i == second by {
            let k = choose|k: int| 0 <= k < cuts.len() && cuts[k] == i;
        }
    }
    if !starts_with_magic(bytes, first) {
        assert forall|html: Seq<char>, css: Seq<char>| bytes@ != encoded(html, css) by {
            if bytes@ == encoded(html, css) {
                lemma_encoded_shape(html, css);
                assert(splits_at(bytes@, magic().len() as int));
                assert(splits_at(bytes@, magic().len() as int + 1 + encode_utf8(html).len()));
            }
        }
        return None;
    }
    assert(first < second < bytes.len());
    let page = part(bytes, first + 1, second);
    let style = part(bytes, second + 1, bytes.len());
    let ghost page_bytes = page@;
    let ghost style_bytes = style@;
    match (text_from_utf8(page), text_from_utf8(style)) {
        (Some(html), Some(css)) => {
            proof {
                decode_utf8_encode_utf8(page_bytes);
                decode_utf8_encode_utf8(style_bytes);
                assert(bytes@ =~= encoded(html@, css@));
            }
            Some((html, css))
        },
        _ => {
            assert forall|html: Seq<char>, css: Seq<char>| bytes@ != encoded(html, css) by {
                if bytes@ == encoded(html, css) {
                    lemma_encoded_shape(html, css);
                    assert(splits_at(bytes@, magic().len() as int));
                    assert(splits_at(bytes@, magic().len() as int + 1 + encode_utf8(html).len()));
                    encode_utf8_valid_utf8(html);
                    encode_utf8_valid_utf8(css);
                }
            }
            None
        },
    }
}

} // verus!
