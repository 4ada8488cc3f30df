//! The crop rectangle a viewer asks for, and its textual form.
use vstd::prelude::*;
use vstd::string::StrSliceExecFns;

verus! {

/// A rectangle of the image, in pixels.  A width or height of zero stands
/// for "all of it".
#[derive(Clone, Copy, Debug, Default, PartialEq, Eq, Structural)]
pub struct CropInfo {
    pub width: u32,
    pub height: u32,
    pub left: u32,
    pub top: u32,
}

/// Why a text is no crop rectangle.  A word is read from left to right, and
/// the first character at which reading cannot go on decides.
#[derive(Clone, Copy, Debug, PartialEq, Eq, Structural)]
pub enum CropError {
    /// The word is empty but for its sign, or reading met a character that
    /// is no digit.
    NotANumber,
    /// Reading met a digit with which the number no longer fits 32 bits.
    TooLarge,
}

/// Whether `c` separates words: the characters Unicode calls white space.
pub open spec fn is_space(c: char) -> bool {
    let u = c as u32;
    (0x09 <= u <= 0x0d) || u == 0x20 || u == 0x85 || u == 0xa0 || u == 0x1680 || (0x2000 <= u
        <= 0x200a) || u == 0x2028 || u == 0x2029 || u == 0x202f || u == 0x205f || u == 0x3000
}

/// Whether `c` is one of the digits 0 to 9.
pub open spec fn is_digit(c: char) -> bool {
    0x30 <= c as u32 <= 0x39
}

/// Where the word that holds position `i` ends: the first position from `i`
/// on that holds white space, or the end of the text.
pub open spec fn word_end(s: Seq<char>, i: int) -> int
    decreases s.len() - i,
{
    if 0 <= i < s.len() && !is_space(s[i]) {
        word_end(s, i + 1)
    } else {
        i
    }
}

/// The words of `s` from position `i` on, where `i` does not lie inside a
/// word: the maximal runs of characters that are not white space.
pub open spec fn words_from(s: Seq<char>, i: int) -> Seq<Seq<char>>
    decreases s.len() - i,
{
    if i < 0 || i >= s.len() {
        Seq::empty()
    } else if is_space(s[i]) {
        words_from(s, i + 1)
    } else {
        // a word that starts here ends later, so the recursion goes forward
        let end = if i < word_end(s, i) <= s.len() {
            word_end(s, i)
        } else {
            i + 1
        };
        seq![s.subrange(i, end)].add(words_from(s, end))
    }
}

/// The words of `s`.
pub open spec fn words(s: Seq<char>) -> Seq<Seq<char>> {
    words_from(s, 0)
}

/// The number that a sequence of digits writes in base ten.
pub open spec fn decimal(digits: Seq<char>) -> nat
    decreases digits.len(),
{
    if digits.len() == 0 {
        0
    } else {
        (decimal(digits.drop_last()) * 10 + (digits.last() as u32 - 0x30)) as nat
    }
}

/// The digits of a word: the word without a leading plus sign.
pub open spec fn digits_of(word: Seq<char>) -> Seq<char> {
    if word.len() > 0 && word[0] == '+' {
        word.subrange(1, word.len() as int)
    } else {
        word
    }
}

/// Whether reading the digits stops at position `k`: the character there is
/// no digit, or the digits up to and including it write a number of 2^32
/// or more.
pub open spec fn faulty_at(digits: Seq<char>, k: int) -> bool {
    !is_digit(digits[k]) || decimal(digits.take(k + 1)) > u32::MAX
}

/// The first position from `k` on at which reading the digits stops, or
/// their number if it stops nowhere.
pub open spec fn first_fault(digits: Seq<char>, k: int) -> int
    decreases digits.len() - k,
{
    if k < 0 || k >= digits.len() {
        digits.len() as int
    } else if faulty_at(digits, k) {
        k
    } else {
        first_fault(digits, k + 1)
    }
}

/// The number a word stands for: an optional plus sign, then at least one
/// digit and nothing else, writing a number below 2^32.  Where the word is
/// none, the first character at which reading stops decides the error: a
/// character that is no digit, or a digit that makes the number too large.
pub open spec fn spec_parse_u32(word: Seq<char>) -> Result<u32, CropError> {
    let digits = digits_of(word);
    let stop = first_fault(digits, 0);
    if digits.len() == 0 {
        Err(CropError::NotANumber)
    } else if stop == digits.len() {
        Ok(decimal(digits) as u32)
    } else if !is_digit(digits[stop]) {
        Err(CropError::NotANumber)
    } else {
        Err(CropError::TooLarge)
    }
}

/// The rectangle that a list of words describes.
///
/// No word: everything zero.  One number: a square of that size.  Two:
/// width and height.  Three: the size of a square, then left and top.
/// Four or more: width, height, left and top; further words are not looked
/// at.  The first word, among those looked at, that is no number decides
/// the error.
pub open spec fn spec_parse_crop(words: Seq<Seq<char>>) -> Result<CropInfo, CropError> {
    if words.len() == 0 {
        Ok(CropInfo { width: 0, height: 0, left: 0, top: 0 })
    } else {
        match spec_parse_u32(words[0]) {
            Err(e) => Err(e),
            Ok(a) => if words.len() == 1 {
                Ok(CropInfo { width: a, height: a, left: 0, top: 0 })
            } else {
                match spec_parse_u32(words[1]) {
                    Err(e) => Err(e),
                    Ok(b) => if words.len() == 2 {
                        Ok(CropInfo { width: a, height: b, left: 0, top: 0 })
                    } else {
                        match spec_parse_u32(words[2]) {
                            Err(e) => Err(e),
                            Ok(c) => if words.len() == 3 {
                                Ok(CropInfo { width: a, height: a, left: b, top: c })
                            } else {
                                match spec_parse_u32(words[3]) {
                                    Err(e) => Err(e),
                                    Ok(d) => Ok(
                                        CropInfo { width: a, height: b, left: c, top: d },
                                    ),
                                }
                            },
                        }
                    },
                }
            },
        }
    }
}

/// A word ends at or after the position it is asked from, and inside the
/// text; everything in between is no white space.
pub proof fn lemma_word_end(s: Seq<char>, i: int)
    requires
        0 <= i <= s.len(),
    ensures
        i <= word_end(s, i) <= s.len(),
        forall|k: int| i <= k < word_end(s, i) ==> !is_space(#[trigger] s[k]),
        word_end(s, i) < s.len() ==> is_space(s[word_end(s, i)]),
        i < s.len() && !is_space(s[i]) ==> word_end(s, i) > i,
    decreases s.len() - i,
{
    if i < s.len() && !is_space(s[i]) {
        lemma_word_end(s, i + 1);
    }
}

/// Appending a digit multiplies the number by ten and adds the digit.
pub proof fn lemma_decimal_push(digits: Seq<char>, c: char)
    requires
        is_digit(c),
    ensures
        decimal(digits.push(c)) == decimal(digits) * 10 + (c as u32 - 0x30),
{
    assert(digits.push(c).drop_last() =~= digits);
}

/// Whether `c` separates words.
pub fn char_is_space(c: char) -> (r: bool)
    ensures
        r == is_space(c),
{
    let u: u32 = c as u32;
    (u >= 0x09 && u <= 0x0d) || u == 0x20 || u == 0x85 || u == 0xa0 || u == 0x1680 || (u >= 0x2000
        && u <= 0x200a) || u == 0x2028 || u == 0x2029 || u == 0x202f || u == 0x205f || u == 0x3000
}

/// The number that the characters `start..end` of `s` stand for.
pub fn parse_u32(s: &str, start: usize, end: usize) -> (r: Result<u32, CropError>)
    requires
        start <= end <= s@.len(),
    ensures
        r == spec_parse_u32(s@.subrange(start as int, end as int)),
{
    let ghost word = s@.subrange(start as int, end as int);
    let mut pos: usize = start;
    if pos < end && s.get_char(pos) == '+' {
        pos += 1;
    }
    let first: usize = pos;
    let ghost digits = digits_of(word);
    assert(digits =~= s@.subrange(first as int, end as int));
    if first == end {
        return Err(CropError::NotANumber);
    }
    let mut value: u32 = 0;
    while pos < end
        invariant
            first <= pos <= end <= s@.len(),
            first < end,
            word == s@.subrange(start as int, end as int),
            digits == digits_of(word),
            digits == s@.subrange(first as int, end as int),
            first_fault(digits, 0) == first_fault(digits, pos - first),
            value == decimal(digits.take(pos - first)),
        decreases end - pos,
    {
        let c = s.get_char(pos);
        let u: u32 = c as u32;
        if u < 0x30 || u > 0x39 {
            assert(!is_digit(digits[pos - first]));
            return Err(CropError::NotANumber);
        }
        let d: u32 = u - 0x30;
        proof {
            assert(digits.take(pos - first + 1) =~= digits.take(pos - first).push(c));
            lemma_decimal_push(digits.take(pos - first), c);
        }
        if value > (u32::MAX - d) / 10 {
            return Err(CropError::TooLarge);
        }
        value = value * 10 + d;
        pos += 1;
    }
    assert(digits.take(pos - first) =~= digits);
    Ok(value)
}

impl std::str::FromStr for CropInfo {
    type Err = CropError;

    /// Reads a crop rectangle with [`CropInfo::parse`].
    fn from_str(s: &str) -> (r: Result<Self, CropError>)
        ensures
            r == spec_parse_crop(words(s@)),
    {
        CropInfo::parse(s)
    }
}

impl CropInfo {
    /// Reads a crop rectangle from its textual form: up to four numbers
    /// separated by white space.
    pub fn parse(s: &str) -> (r: Result<CropInfo, CropError>)
        ensures
            r == spec_parse_crop(words(s@)),
    {
        let len: usize = s.unicode_len();
        let mut values: Vec<u32> = Vec::new();
        let mut pos: usize = 0;
        let ghost mut done: Seq<Seq<char>> = Seq::empty();
        let mut more = true;
        while more && values.len() < 4
            invariant
                pos <= len,
                len == s@.len(),
                values@.len() == done.len(),
                values@.len() <= 4,
                words(s@) == done.add(words_from(s@, pos as int)),
                !more ==> words_from(s@, pos as int).len() == 0,
                forall|k: int|
                    0 <= k < done.len() ==> spec_parse_u32(#[trigger] done[k]) == Ok::<
                        u32,
                        CropError,
                    >(values@[k]),
            decreases (if more { 1int } else { 0int }), 4 - values@.len(),
        {
            while pos < len && char_is_space(s.get_char(pos))
                invariant
                    pos <= len,
                    len == s@.len(),
                    words(s@) == done.add(words_from(s@, pos as int)),
                decreases len - pos,
            {
                pos += 1;
            }
            if pos >= len {
                more = false;
            } else {
                let start: usize = pos;
                while pos < len && !char_is_space(s.get_char(pos))
                    invariant
                        start <= pos <= len,
                        len == s@.len(),
                        word_end(s@, start as int) == word_end(s@, pos as int),
                    decreases len - pos,
                {
                    pos += 1;
                }
                proof {
                    lemma_word_end(s@, start as int);
                    assert(word_end(s@, start as int) == pos);
                    assert(words_from(s@, start as int) == seq![
                        s@.subrange(start as int, pos as int),
                    ].add(words_from(s@, pos as int)));
                }
                let ghost word = s@.subrange(start as int, pos as int);
                match parse_u32(s, start, pos) {
                    Err(e) => {
                        proof {
                            let all = words(s@);
                            assert(all =~= done.push(word).add(words_from(s@, pos as int)));
                            assert(all[done.len() as int] == word);
                            assert forall|k: int| 0 <= k < done.len() implies spec_parse_u32(
                                #[trigger] all[k],
                            ) == Ok::<u32, CropError>(values@[k]) by {
                                assert(all[k] == done[k]);
                            }
                        }
                        return Err(e);
                    },
                    Ok(v) => {
                        values.push(v);
                        proof {
                            assert(words(s@) =~= done.push(word).add(
                                words_from(s@, pos as int),
                            ));
                            done = done.push(word);
                        }
                    },
                }
            }
        }
        proof {
            let all = words(s@);
            assert forall|k: int| 0 <= k < done.len() implies spec_parse_u32(#[trigger] all[k])
                == Ok::<u32, CropError>(values@[k]) by {
                assert(all[k] == done[k]);
            }
            assert(values@.len() < 4 ==> all.len() == values@.len());
            assert(all.len() >= values@.len());
        }
        let n: usize = values.len();
        if n == 0 {
            Ok(CropInfo { width: 0, height: 0, left: 0, top: 0 })
        } else if n == 1 {
            Ok(CropInfo { width: values[0], height: values[0], left: 0, top: 0 })
        } else if n == 2 {
            Ok(CropInfo { width: values[0], height: values[1], left: 0, top: 0 })
        } else if n == 3 {
            Ok(CropInfo { width: values[0], height: values[0], left: values[1], top: values[2] })
        } else {
            Ok(CropInfo { width: values[0], height: values[1], left: values[2], top: values[3] })
        }
    }

    /// The rectangle to decode for an image of the given size: nothing when
    /// neither width nor height is given, else the rectangle with a missing
    /// width or height taken from the image.
    pub fn resolve(self, image_width: u32, image_height: u32) -> (r: Option<CropInfo>)
        ensures
            r == (if self.width == 0 && self.height == 0 {
                None
            } else if self.width == 0 {
                Some(
                    (CropInfo {
                        width: image_width,
                        height: self.height,
                        left: self.left,
                        top: self.top,
                    }),
                )
            } else if self.height == 0 {
                Some(
                    (CropInfo {
                        width: self.width,
                        height: image_height,
                        left: self.left,
                        top: self.top,
                    }),
                )
            } else {
                Some(self)
            }),
    {
        if self.width == 0 && self.height == 0 {
            None
        } else if self.width == 0 {
            Some(
                CropInfo {
                    width: image_width,
                    height: self.height,
                    left: self.left,
                    top: self.top,
                },
            )
        } else if self.height == 0 {
            Some(
                CropInfo {
                    width: self.width,
                    height: image_height,
                    left: self.left,
                    top: self.top,
                },
            )
        } else {
            Some(self)
        }
    }
}

} // verus!
