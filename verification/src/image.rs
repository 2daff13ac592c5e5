use crate::system::random_usize;
use crate::text::{occurs_at, stands_at, string_of, take, to_chars};
use vstd::prelude::*;
use vstd::string::StringExecFns;

verus! {

/// An error of `base64` on text that is no Base64.
#[verifier::external_type_specification]
#[verifier::external_body]
pub struct ExDecodeError(base64::DecodeError);

/// What `base64` makes of a text with its standard alphabet and padding: the bytes, or
/// nothing where the text is no Base64.
pub uninterp spec fn base64_decoded(text: Seq<char>) -> Option<Seq<u8>>;

/// `base64::Engine::decode` of `base64::engine::general_purpose::STANDARD`: the bytes that
/// the text stands for, or the error where it stands for none. The result is a function of
/// the text alone, which `base64_decoded` names.
#[verifier::external_body]
pub(crate) fn base64_decode(text: &str) -> (r: Result<Vec<u8>, base64::DecodeError>)
    ensures
        match r {
            Ok(bytes) => base64_decoded(text@) == Some(bytes@),
            Err(_) => base64_decoded(text@) is None,
        },
{
    base64::Engine::decode(&base64::engine::general_purpose::STANDARD, text)
}

/// The number of characters in the name of an image file.
pub const FILE_NAME_LENGTH: usize = 32;

/// The characters that the name of an image file is drawn from: the small letters, then
/// the digits.
pub open spec fn file_name_alphabet() -> Seq<char> {
    seq![
        'a', 'b', 'c', 'd', 'e', 'f', 'g', 'h', 'i', 'j', 'k', 'l', 'm', 'n', 'o', 'p', 'q', 'r',
        's', 't', 'u', 'v', 'w', 'x', 'y', 'z', '0', '1', '2', '3', '4', '5', '6', '7', '8', '9',
    ]
}

/// With what the address of an embedded image begins, before the kind of image.
pub open spec fn url_head() -> Seq<char> {
    "data:image/"@
}

/// What follows the kind of image in the address of an embedded image.
pub open spec fn url_tail() -> Seq<char> {
    ";base64"@
}

/// Under what the images are reached.
pub open spec fn reference_root() -> Seq<char> {
    "/res/images/"@
}

/// The place of the first comma of a text from `i` on, or the text's length where it has
/// none there.
pub open spec fn comma_from(text: Seq<char>, i: int) -> int
    decreases text.len() - i,
{
    if 0 <= i < text.len() && text[i] != ',' {
        comma_from(text, i + 1)
    } else {
        i
    }
}

/// The place of the first comma of a text, or its length where it has none.
pub open spec fn first_comma(text: Seq<char>) -> int {
    comma_from(text, 0)
}

/// From `s` the head stands in `p`, from `e` the tail, and between the two stands a kind of
/// image: one character or more, none of them a line feed.
pub open spec fn is_span(p: Seq<char>, s: int, e: int) -> bool {
    &&& occurs_at(p, url_head(), s)
    &&& s + url_head().len() < e
    &&& occurs_at(p, url_tail(), e)
    &&& forall|k: int| s + url_head().len() <= k < e ==> #[trigger] p[k] != '\n'
}

/// Of all the spans in `p` this one begins first, and of those that begin there it is the
/// longest.
pub open spec fn is_chosen_span(p: Seq<char>, s: int, e: int) -> bool {
    &&& is_span(p, s, e)
    &&& forall|s2: int, e2: int| #[trigger] is_span(p, s2, e2) ==> s <= s2
    &&& forall|e2: int| #[trigger] is_span(p, s, e2) ==> e2 <= e
}

/// What was taken out of a note that embeds an image.
#[derive(Debug, Clone)]
pub struct ImageFile {
    /// The name of the file without its extension: drawn at random.
    pub file_name: String,
    /// The kind of image, which becomes the file's extension.
    pub ext: String,
    /// The image itself.
    pub bytes: Vec<u8>,
    /// The text that takes the place of the note's text.
    pub reference: String,
}

/// The payload of an embedded image is no Base64.
#[derive(Debug, Clone, Copy, PartialEq, Eq, Structural)]
pub struct InvalidImage;

/// The character that a draw picks for the name of an image file.
pub fn file_name_char(draw: usize) -> (c: char)
    ensures
        c == file_name_alphabet()[(draw % 36) as int],
{
    let i = (draw % 36) as u8;
    if i < 26 {
        (97u8 + i) as char
    } else {
        (48u8 + (i - 26)) as char
    }
}

/// A name for an image file: 32 characters, each drawn from the small letters and digits.
pub fn gen_file_name() -> (name: String)
    ensures
        name@.len() == FILE_NAME_LENGTH,
        forall|k: int| 0 <= k < name@.len() ==> file_name_alphabet().contains(#[trigger] name@[k]),
{
    let mut name = String::new();
    let mut i: usize = 0;
    while i < FILE_NAME_LENGTH
        invariant
            i <= FILE_NAME_LENGTH,
            name@.len() == i,
            forall|k: int| 0 <= k < name@.len() ==> file_name_alphabet().contains(
                #[trigger] name@[k],
            ),
        decreases FILE_NAME_LENGTH - i,
    {
        let draw = random_usize();
        let c = file_name_char(draw);
        assert(file_name_alphabet()[(draw % 36) as int] == c);
        name.push(c);
        i += 1;
    }
    name
}

/// The place of the first comma, if there is one.
pub fn find_comma(chars: &Vec<char>) -> (at: Option<usize>)
    ensures
        match at {
            Some(i) => i < chars.len() && i == first_comma(chars@),
            None => first_comma(chars@) == chars.len(),
        },
{
    let mut i: usize = 0;
    while i < chars.len()
        invariant
            i <= chars.len(),
            first_comma(chars@) == comma_from(chars@, i as int),
        decreases chars.len() - i,
    {
        if chars[i] == ',' {
            return Some(i);
        }
        i += 1;
    }
    None
}

/// Looks for the kind of an embedded image: where the characters hold `data:image/`,
/// then one or more characters without a line feed, then `;base64`, the first place where
/// that begins counts, and from there the longest stretch. Returned are the places where
/// the kind begins and ends.
pub fn find_kind(chars: &Vec<char>) -> (r: Option<(usize, usize)>)
    ensures
        match r {
            Some((from, to)) => from <= to <= chars.len() && is_chosen_span(
                chars@,
                from - url_head().len(),
                to as int,
            ),
            None => forall|s: int, e: int| !is_span(chars@, s, e),
        },
{
    let head = to_chars("data:image/");
    let tail = to_chars(";base64");
    proof {
        reveal_strlit("data:image/");
        reveal_strlit(";base64");
    }
    let ghost p = chars@;
    let limit = chars.len();
    if tail.len() > limit || head.len() > limit {
        assert forall|s: int, e: int| !is_span(p, s, e) by {}
        return None;
    }
    let mut s: usize = 0;
    while s < limit - head.len()
        invariant
            p == chars@,
            p.len() == limit,
            head@ == url_head(),
            tail@ == url_tail(),
            tail.len() <= limit,
            head.len() <= limit,
            tail.len() == 7,
            s <= limit - head.len(),
            forall|s2: int, e2: int| s2 < s ==> !is_span(p, s2, e2),
        decreases limit - head.len() - s,
    {
        if stands_at(chars, &head, s) {
            let start: usize = s + head.len();
            let mut e: usize = start + 1;
            let mut best: Option<usize> = None;
            while e <= limit - tail.len() && chars[e - 1] != '\n'
                invariant
                    p == chars@,
                    p.len() == limit,
                    head@ == url_head(),
                    tail@ == url_tail(),
                    tail.len() <= limit,
                    tail.len() == 7,
                    start == s + head.len(),
                    start < e <= limit + 1,
                    start < limit,
                    occurs_at(p, url_head(), s as int),
                    forall|k: int| start <= k < e - 1 ==> #[trigger] p[k] != '\n',
                    match best {
                        Some(b) => start < b < e && is_span(p, s as int, b as int),
                        None => true,
                    },
                    forall|e2: int|
                        e2 < e && #[trigger] is_span(p, s as int, e2) ==> best is Some && e2
                            <= best->0,
                decreases limit + 1 - e,
            {
                if stands_at(chars, &tail, e) {
                    best = Some(e);
                }
                e += 1;
            }
            match best {
                Some(b) => {
                    assert forall|e2: int| #[trigger] is_span(p, s as int, e2) implies e2 <= b by {
                        if e2 >= e {
                            if e <= limit - tail.len() {
                                assert(p[e - 1] == '\n');
                            }
                        }
                    }
                    return Some((start, b));
                },
                None => {
                    assert forall|e2: int| !is_span(p, s as int, e2) by {
                        if is_span(p, s as int, e2) {
                            if e2 >= e {
                                if e <= limit - tail.len() {
                                    assert(p[e - 1] == '\n');
                                }
                            }
                        }
                    }
                },
            }
        }
        s += 1;
    }
    assert forall|s2: int, e2: int| !is_span(p, s2, e2) by {
        if is_span(p, s2, e2) {
            assert(s2 + url_head().len() < e2);
            assert(e2 + url_tail().len() <= p.len());
        }
    }
    None
}

/// The text under which an image file is reached: the root, the file's name, a dot and the
/// kind of image.
pub fn image_reference(file_name: &str, ext: &str) -> (reference: String)
    ensures
        reference@ == reference_root() + file_name@ + seq!['.'] + ext@,
{
    let mut reference = String::new();
    reference.append("/res/images/");
    reference.append(file_name);
    reference.push('.');
    reference.append(ext);
    assert(reference@ =~= reference_root() + file_name@ + seq!['.'] + ext@);
    reference
}

/// Takes the image out of a note's text that embeds one. The text is looked at up to its
/// first comma: where it has no comma, or where no kind of image is found before the
/// comma, there is nothing to take out. Otherwise what follows the comma is decoded as
/// Base64, a file name is drawn, and the reference is made that takes the text's place;
/// writing the file is the caller's.
pub fn extract_image(text: &str) -> (r: Result<Option<ImageFile>, InvalidImage>)
    ensures
        ({
            let t = text@;
            let pos = first_comma(t);
            let p = t.subrange(0, pos);
            if pos == t.len() || forall|s: int, e: int| !is_span(p, s, e) {
                r == Ok::<Option<ImageFile>, InvalidImage>(None)
            } else {
                match base64_decoded(t.subrange(pos + 1, t.len() as int)) {
                    None => r is Err,
                    Some(bytes) => r matches Ok(Some(file)) && {
                        &&& file.bytes@ == bytes
                        &&& exists|s: int, e: int|
                            is_chosen_span(p, s, e) && file.ext@ == p.subrange(
                                s + url_head().len(),
                                e,
                            )
                        &&& file.file_name@.len() == FILE_NAME_LENGTH
                        &&& forall|k: int|
                            0 <= k < file.file_name@.len() ==> file_name_alphabet().contains(
                                #[trigger] file.file_name@[k],
                            )
                        &&& file.reference@ == reference_root() + file.file_name@ + seq!['.']
                            + file.ext@
                    },
                }
            }
        }),
{
    let chars = to_chars(text);
    let pos = match find_comma(&chars) {
        Some(pos) => pos,
        None => {
            return Ok(None);
        },
    };
    let prefix = take(&chars, pos);
    let (from, to) = match find_kind(&prefix) {
        Some(span) => span,
        None => {
            return Ok(None);
        },
    };
    let ext = string_of(&prefix, from, to);
    let file_name = gen_file_name();
    let payload = string_of(&chars, pos + 1, chars.len());
    let bytes = match base64_decode(payload.as_str()) {
        Ok(bytes) => bytes,
        Err(_) => {
            return Err(InvalidImage);
        },
    };
    let reference = image_reference(file_name.as_str(), ext.as_str());
    Ok(Some(ImageFile { file_name, ext, bytes, reference }))
}

} // verus!
