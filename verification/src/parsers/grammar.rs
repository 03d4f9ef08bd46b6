//! The shape of a version line, shared by the supported file formats: a key at
//! the start of a line, a separator, and the version between double quotes.

use crate::text::{has_quote, push_range};
use vstd::prelude::*;

verus! {

/// Whether `c` is white space: the Unicode property `White_Space`, which
/// includes the line breaks.
pub open spec fn is_space(c: char) -> bool {
    ||| '\u{9}' <= c <= '\u{d}'
    ||| c == ' '
    ||| c == '\u{85}'
    ||| c == '\u{a0}'
    ||| c == '\u{1680}'
    ||| '\u{2000}' <= c <= '\u{200a}'
    ||| c == '\u{2028}'
    ||| c == '\u{2029}'
    ||| c == '\u{202f}'
    ||| c == '\u{205f}'
    ||| c == '\u{3000}'
}

/// The first position at or after `from` that holds no white space (the
/// length of `s` if only white space follows).
pub open spec fn spaces_end(s: Seq<char>, from: int) -> int
    decreases s.len() - from,
{
    if 0 <= from < s.len() && is_space(s[from]) {
        spaces_end(s, from + 1)
    } else {
        from
    }
}

/// The first position at or after `from` that holds a double quote (the
/// length of `s` if none follows).
pub open spec fn quote_pos(s: Seq<char>, from: int) -> int
    decreases s.len() - from,
{
    if 0 <= from < s.len() && s[from] != '"' {
        quote_pos(s, from + 1)
    } else {
        from
    }
}

/// Whether `word` stands in `s` at position `at`.
pub open spec fn has_at(s: Seq<char>, at: int, word: Seq<char>) -> bool {
    &&& 0 <= at
    &&& at + word.len() <= s.len()
    &&& s.subrange(at, at + word.len()) == word
}

/// Whether a line begins at `p`: at the very start, or right after a line feed.
pub open spec fn is_line_start(s: Seq<char>, p: int) -> bool {
    p == 0 || (0 < p <= s.len() && s[p - 1] == '\n')
}

/// `s` with the characters from `start` up to `end` replaced by `token`.
pub open spec fn spliced(s: Seq<char>, start: int, end: int, token: Seq<char>) -> Seq<char> {
    s.take(start) + token + s.skip(end)
}

/// How a format writes its version line.
pub struct LineShape {
    /// The key, with its quotes where the format quotes keys.
    pub key: Vec<char>,
    /// The character between key and value.
    pub separator: char,
    /// Whether white space may stand between the start of the line and the key.
    pub indented: bool,
}

/// The mathematical value of a [`LineShape`].
pub ghost struct LineShapeView {
    pub key: Seq<char>,
    pub separator: char,
    pub indented: bool,
}

impl View for LineShape {
    type V = LineShapeView;

    open spec fn view(&self) -> LineShapeView {
        LineShapeView { key: self.key@, separator: self.separator, indented: self.indented }
    }
}

impl LineShapeView {
    /// What holds of the shape of every supported format: the key is not
    /// empty and does not begin with white space, and the separator is
    /// neither a double quote nor white space.
    pub open spec fn well_formed(self) -> bool {
        &&& self.key.len() > 0
        &&& !is_space(self.key[0])
        &&& self.separator != '"'
        &&& !is_space(self.separator)
    }

    /// A version line of this shape, written from the start of a line: the
    /// key, the white space `before`, the separator, the white space
    /// `after`, and `token` between double quotes.
    pub open spec fn line(self, before: Seq<char>, after: Seq<char>, token: Seq<char>) -> Seq<
        char,
    > {
        self.key + before + seq![self.separator] + after + seq!['"'] + token + seq!['"']
    }

    /// The value of a version line that begins at `p`, as the positions of its
    /// first character and of the closing quote: from `p`, white space if the
    /// shape allows an indent, the key, white space, the separator, white
    /// space, a double quote, any characters but a double quote, a double
    /// quote. `None` if `s` does not read so from `p`.
    pub open spec fn value_at(self, s: Seq<char>, p: int) -> Option<(int, int)> {
        let k = if self.indented {
            spaces_end(s, p)
        } else {
            p
        };
        let a = spaces_end(s, k + self.key.len());
        let b = spaces_end(s, a + 1);
        let e = quote_pos(s, b + 1);
        if has_at(s, k, self.key) && a < s.len() && s[a] == self.separator && b < s.len() && s[b]
            == '"' && e < s.len() {
            Some((b + 1, e))
        } else {
            None
        }
    }

    /// The value of the first version line that begins at a line start at or
    /// after `from`.
    pub open spec fn first_value_from(self, s: Seq<char>, from: int) -> Option<(int, int)>
        decreases s.len() - from,
    {
        if from < 0 || from >= s.len() {
            None
        } else if is_line_start(s, from) && self.value_at(s, from) is Some {
            self.value_at(s, from)
        } else {
            self.first_value_from(s, from + 1)
        }
    }

    /// The value of the first version line of `s`: the positions, counted in
    /// characters, of the first character between the quotes and of the
    /// closing quote.
    pub open spec fn first_value(self, s: Seq<char>) -> Option<(int, int)> {
        self.first_value_from(s, 0)
    }

    /// The text between the quotes of the first version line of `s`.
    pub open spec fn version_text(self, s: Seq<char>) -> Option<Seq<char>> {
        match self.first_value(s) {
            Some((start, end)) => Some(s.subrange(start, end)),
            None => None,
        }
    }

    /// `s` with `token` in place of the text between the quotes of its first
    /// version line; `s` itself if it has no version line.
    pub open spec fn rewritten(self, s: Seq<char>, token: Seq<char>) -> Seq<char> {
        match self.first_value(s) {
            Some((start, end)) => spliced(s, start, end, token),
            None => s,
        }
    }
}

/// Tells white space from other characters.
pub fn is_space_char(c: char) -> (b: bool)
    ensures
        b == is_space(c),
{
    ('\u{9}' <= c && c <= '\u{d}') || c == ' ' || c == '\u{85}' || c == '\u{a0}' || c
        == '\u{1680}' || ('\u{2000}' <= c && c <= '\u{200a}') || c == '\u{2028}' || c
        == '\u{2029}' || c == '\u{202f}' || c == '\u{205f}' || c == '\u{3000}'
}

/// Skips white space from `from` on.
pub fn skip_spaces(chars: &Vec<char>, from: usize) -> (end: usize)
    requires
        from <= chars.len(),
    ensures
        end == spaces_end(chars@, from as int),
        from <= end <= chars.len(),
{
    let mut i: usize = from;
    while i < chars.len() && is_space_char(chars[i])
        invariant
            from <= i <= chars.len(),
            spaces_end(chars@, i as int) == spaces_end(chars@, from as int),
        decreases chars.len() - i,
    {
        i += 1;
    }
    i
}

/// Finds the next double quote from `from` on.
pub fn find_quote(chars: &Vec<char>, from: usize) -> (end: usize)
    requires
        from <= chars.len(),
    ensures
        end == quote_pos(chars@, from as int),
        from <= end <= chars.len(),
{
    let mut i: usize = from;
    while i < chars.len() && chars[i] != '"'
        invariant
            from <= i <= chars.len(),
            quote_pos(chars@, i as int) == quote_pos(chars@, from as int),
        decreases chars.len() - i,
    {
        i += 1;
    }
    i
}

/// Tests whether `word` stands in `chars` at position `at`.
pub fn starts_with_at(chars: &Vec<char>, at: usize, word: &Vec<char>) -> (b: bool)
    requires
        at <= chars.len(),
    ensures
        b == has_at(chars@, at as int, word@),
{
    if word.len() > chars.len() - at {
        return false;
    }
    let ghost there = chars@.subrange(at as int, at + word.len());
    let mut i: usize = 0;
    while i < word.len()
        invariant
            i <= word.len(),
            at + word.len() <= chars.len(),
            there == chars@.subrange(at as int, at + word.len()),
            there.take(i as int) == word@.take(i as int),
        decreases word.len() - i,
    {
        if chars[at + i] != word[i] {
            proof {
                assert(there[i as int] != word@[i as int]);
            }
            return false;
        }
        proof {
            assert(there.take(i + 1) =~= there.take(i as int).push(there[i as int]));
            assert(word@.take(i + 1) =~= word@.take(i as int).push(word@[i as int]));
        }
        i += 1;
    }
    proof {
        assert(there.take(word.len() as int) =~= there);
        assert(word@.take(word.len() as int) =~= word@);
    }
    true
}

impl LineShape {
    /// Reads a version line that begins at `p`.
    pub fn value_at(&self, chars: &Vec<char>, p: usize) -> (found: Option<(usize, usize)>)
        requires
            p <= chars.len(),
        ensures
            match self@.value_at(chars@, p as int) {
                Some((start, end)) => found matches Some((s, e)) && s == start && e == end && p
                    < start <= end < chars.len(),
                None => found is None,
            },
    {
        let k = if self.indented {
            skip_spaces(chars, p)
        } else {
            p
        };
        if !starts_with_at(chars, k, &self.key) {
            return None;
        }
        let a = skip_spaces(chars, k + self.key.len());
        if a >= chars.len() || chars[a] != self.separator {
            return None;
        }
        let b = skip_spaces(chars, a + 1);
        if b >= chars.len() || chars[b] != '"' {
            return None;
        }
        let e = find_quote(chars, b + 1);
        if e >= chars.len() {
            return None;
        }
        Some((b + 1, e))
    }

    /// Finds the value of the first version line.
    pub fn first_value(&self, chars: &Vec<char>) -> (found: Option<(usize, usize)>)
        ensures
            match self@.first_value(chars@) {
                Some((start, end)) => found matches Some((s, e)) && s == start && e == end && 0
                    < start <= end < chars.len(),
                None => found is None,
            },
    {
        let mut p: usize = 0;
        while p < chars.len()
            invariant
                p <= chars.len(),
                self@.first_value_from(chars@, p as int) == self@.first_value(chars@),
            decreases chars.len() - p,
        {
            if p == 0 || chars[p - 1] == '\n' {
                let found = self.value_at(chars, p);
                if found.is_some() {
                    return found;
                }
            }
            p += 1;
        }
        None
    }
}

/// Builds the text in which `token` takes the place of `chars[start..end]`.
pub fn splice(chars: &Vec<char>, start: usize, end: usize, token: &Vec<char>) -> (out: String)
    requires
        start <= end <= chars.len(),
    ensures
        out@ == spliced(chars@, start as int, end as int, token@),
{
    let mut out = String::new();
    push_range(&mut out, chars, 0, start);
    push_range(&mut out, token, 0, token.len());
    push_range(&mut out, chars, end, chars.len());
    proof {
        assert(chars@.subrange(0, start as int) =~= chars@.take(start as int));
        assert(token@.subrange(0, token.len() as int) =~= token@);
        assert(chars@.subrange(end as int, chars.len() as int) =~= chars@.skip(end as int));
    }
    out
}

/// Between `from` and [`spaces_end`] there is only white space, and none at
/// the end itself.
pub proof fn lemma_spaces_end(s: Seq<char>, from: int)
    requires
        0 <= from,
    ensures
        from <= spaces_end(s, from),
        from <= s.len() ==> spaces_end(s, from) <= s.len(),
        forall|i: int| from <= i < spaces_end(s, from) ==> is_space(s[i]),
        spaces_end(s, from) < s.len() ==> !is_space(s[spaces_end(s, from)]),
    decreases s.len() - from,
{
    if from < s.len() && is_space(s[from]) {
        lemma_spaces_end(s, from + 1);
    }
}

/// Between `from` and [`quote_pos`] there is no double quote, and there is
/// one at the end itself unless that is the end of `s`.
pub proof fn lemma_quote_pos(s: Seq<char>, from: int)
    requires
        0 <= from,
    ensures
        from <= quote_pos(s, from),
        from <= s.len() ==> quote_pos(s, from) <= s.len(),
        forall|i: int| from <= i < quote_pos(s, from) ==> s[i] != '"',
        quote_pos(s, from) < s.len() ==> s[quote_pos(s, from)] == '"',
    decreases s.len() - from,
{
    if from < s.len() && s[from] != '"' {
        lemma_quote_pos(s, from + 1);
    }
}

/// What [`LineShapeView::first_value_from`] finds is the value of a version
/// line that begins at some line start `p >= from`, no line start between
/// `from` and `p` begins one, and the value lies inside `s` and holds no
/// double quote, with one right after it.
pub proof fn lemma_first_value_from(shape: LineShapeView, s: Seq<char>, from: int)
    requires
        0 <= from,
    ensures
        match shape.first_value_from(s, from) {
            Some((start, end)) => {
                &&& 0 < start <= end < s.len()
                &&& s[start - 1] == '"'
                &&& s[end] == '"'
                &&& forall|i: int| start <= i < end ==> s[i] != '"'
                &&& exists|p: int|
                    {
                        &&& from <= p < start
                        &&& is_line_start(s, p)
                        &&& #[trigger] shape.value_at(s, p) == Some((start, end))
                        &&& forall|q: int|
                            from <= q < p && is_line_start(s, q) ==> shape.value_at(s, q) is None
                    }
            },
            None => forall|q: int|
                from <= q < s.len() && is_line_start(s, q) ==> shape.value_at(s, q) is None,
        },
    decreases s.len() - from,
{
    if from >= s.len() {
    } else if is_line_start(s, from) && shape.value_at(s, from) is Some {
        let k = if shape.indented {
            spaces_end(s, from)
        } else {
            from
        };
        let a = spaces_end(s, k + shape.key.len());
        let b = spaces_end(s, a + 1);
        lemma_spaces_end(s, from);
        lemma_spaces_end(s, k + shape.key.len());
        lemma_spaces_end(s, a + 1);
        lemma_quote_pos(s, b + 1);
    } else {
        lemma_first_value_from(shape, s, from + 1);
        match shape.first_value_from(s, from) {
            Some((start, end)) => {
                let p = choose|p: int|
                    {
                        &&& from + 1 <= p < start
                        &&& is_line_start(s, p)
                        &&& #[trigger] shape.value_at(s, p) == Some((start, end))
                        &&& forall|q: int|
                            from + 1 <= q < p && is_line_start(s, q) ==> shape.value_at(s, q)
                                is None
                    };
                assert(shape.value_at(s, p) == Some((start, end)));
            },
            None => {},
        }
    }
}

/// Writing a version changes the version text and nothing else. Where `s` has
/// a version line, the result holds every character of `s` before the
/// version text, then `token`, then every character of `s` from the closing
/// quote on; so `token` stands between the two quotes that the old text
/// stood between. Where `s` has no version line, the result is `s`.
pub proof fn lemma_rewritten_keeps_the_rest(shape: LineShapeView, s: Seq<char>, token: Seq<char>)
    ensures
        match shape.first_value(s) {
            Some((start, end)) => {
                let out = shape.rewritten(s, token);
                &&& 0 < start <= end < s.len()
                &&& out.len() == s.len() - (end - start) + token.len()
                &&& out.take(start) == s.take(start)
                &&& out.subrange(start, start + token.len()) == token
                &&& out.skip(start + token.len()) == s.skip(end)
                &&& out[start - 1] == '"'
                &&& out[start + token.len()] == '"'
            },
            None => shape.rewritten(s, token) == s,
        },
{
    lemma_first_value_from(shape, s, 0);
    match shape.first_value(s) {
        Some((start, end)) => {
            let out = shape.rewritten(s, token);
            assert(out.take(start) =~= s.take(start));
            assert(out.subrange(start, start + token.len()) =~= token);
            assert(out.skip(start + token.len()) =~= s.skip(end));
        },
        None => {},
    }
}

/// Whether `s` and `t` hold the same characters before position `m`.
pub open spec fn agree_before(s: Seq<char>, t: Seq<char>, m: int) -> bool {
    &&& 0 <= m <= s.len()
    &&& m <= t.len()
    &&& forall|i: int| 0 <= i < m ==> s[i] == t[i]
}

/// White space that ends before `m` ends at the same place in every text
/// that is the same before `m`.
proof fn lemma_spaces_end_local(s: Seq<char>, t: Seq<char>, m: int, from: int)
    requires
        agree_before(s, t, m),
        0 <= from,
        spaces_end(s, from) < m,
    ensures
        spaces_end(t, from) == spaces_end(s, from),
    decreases s.len() - from,
{
    lemma_spaces_end(s, from);
    if from < s.len() && is_space(s[from]) {
        lemma_spaces_end(s, from + 1);
        lemma_spaces_end_local(s, t, m, from + 1);
    }
}

/// White space does not run past a character that is none.
proof fn lemma_spaces_end_stops(t: Seq<char>, from: int, x: int)
    requires
        0 <= from <= x < t.len(),
        !is_space(t[x]),
    ensures
        spaces_end(t, from) <= x,
    decreases x - from,
{
    if from < x && is_space(t[from]) {
        lemma_spaces_end_stops(t, from + 1, x);
    }
}

/// White space from `from` up to a character at `x` that is none ends at `x`.
proof fn lemma_spaces_end_found(t: Seq<char>, from: int, x: int)
    requires
        0 <= from <= x < t.len(),
        !is_space(t[x]),
        forall|i: int| from <= i < x ==> is_space(t[i]),
    ensures
        spaces_end(t, from) == x,
    decreases x - from,
{
    if from < x {
        lemma_spaces_end_found(t, from + 1, x);
    }
}

/// The next double quote is not looked for past one.
proof fn lemma_quote_pos_stops(t: Seq<char>, from: int, x: int)
    requires
        0 <= from <= x < t.len(),
        t[x] == '"',
    ensures
        quote_pos(t, from) <= x,
    decreases x - from,
{
    if from < x && t[from] != '"' {
        lemma_quote_pos_stops(t, from + 1, x);
    }
}

/// The first double quote at or after `from` is the next one.
proof fn lemma_quote_pos_found(t: Seq<char>, from: int, x: int)
    requires
        0 <= from <= x < t.len(),
        t[x] == '"',
        forall|i: int| from <= i < x ==> t[i] != '"',
    ensures
        quote_pos(t, from) == x,
    decreases x - from,
{
    if from < x {
        lemma_quote_pos_found(t, from + 1, x);
    }
}

/// A word that stands before `m` stands at the same place in every text
/// that is the same before `m`.
proof fn lemma_has_at_local(s: Seq<char>, t: Seq<char>, m: int, at: int, word: Seq<char>)
    requires
        agree_before(s, t, m),
        has_at(s, at, word),
        at + word.len() <= m,
    ensures
        has_at(t, at, word),
{
    assert(t.subrange(at, at + word.len()) =~= s.subrange(at, at + word.len()));
}

/// Where a version line begins at the line start `p` and none begins at a
/// line start between `from` and `p`, the first value from `from` on is that
/// of the line at `p`.
pub proof fn lemma_first_value_is_first(shape: LineShapeView, s: Seq<char>, from: int, p: int)
    requires
        0 <= from <= p < s.len(),
        is_line_start(s, p),
        shape.value_at(s, p) is Some,
        forall|q: int| from <= q < p && is_line_start(s, q) ==> shape.value_at(s, q) is None,
    ensures
        shape.first_value_from(s, from) == shape.value_at(s, p),
    decreases p - from,
{
    if from < p {
        lemma_first_value_is_first(shape, s, from + 1, p);
    }
}

/// A version line of `t` that begins before the line start `p` of a version
/// line of `s` is a version line of `s` as well, where `s` and `t` agree up
/// to the opening quote of the value of the line at `p`.
proof fn lemma_earlier_line_is_shared(
    shape: LineShapeView,
    s: Seq<char>,
    t: Seq<char>,
    p: int,
    q: int,
    a: int,
    b: int,
)
    requires
        shape.well_formed(),
        0 <= q < p,
        shape.value_at(s, p) == Some((a, b)),
        agree_before(s, t, a),
        shape.value_at(t, q) is Some,
    ensures
        shape.value_at(s, q) is Some,
{
    let kp = if shape.indented {
        spaces_end(s, p)
    } else {
        p
    };
    let ap = spaces_end(s, kp + shape.key.len());
    lemma_spaces_end(s, p);
    lemma_spaces_end(s, kp + shape.key.len());
    lemma_spaces_end(s, ap + 1);
    assert(a - 1 == spaces_end(s, ap + 1));
    assert(s[a - 1] == '"');
    assert(s[kp] == s.subrange(kp, kp + shape.key.len())[0]);
    assert(t[kp] == shape.key[0]);

    let kt = if shape.indented {
        spaces_end(t, q)
    } else {
        q
    };
    let at = spaces_end(t, kt + shape.key.len());
    let bt = spaces_end(t, at + 1);
    lemma_spaces_end(t, q);
    lemma_spaces_end(t, kt + shape.key.len());
    lemma_spaces_end(t, at + 1);
    if shape.indented {
        lemma_spaces_end_stops(t, q, kp);
    }
    assert(kt <= kp);
    assert(kt + shape.key.len() <= a - 2);
    if bt > a - 1 {
        if a - 1 < at {
            assert(is_space(t[a - 1]));
        } else if a - 1 == at {
            assert(t[at] == shape.separator);
        } else {
            assert(is_space(t[a - 1]));
        }
        assert(false);
    }
    assert(agree_before(t, s, a));
    if shape.indented {
        lemma_spaces_end_local(t, s, a, q);
    }
    lemma_has_at_local(t, s, a, kt, shape.key);
    lemma_spaces_end_local(t, s, a, kt + shape.key.len());
    lemma_spaces_end_local(t, s, a, at + 1);
    if bt < a - 1 {
        lemma_quote_pos_stops(s, bt + 1, a - 1);
    } else {
        assert(quote_pos(s, bt + 1) == b);
    }
}

/// What was written can be read back: after `token`, which holds no double
/// quote, has been written into a text with a version line, the first
/// version line of the result holds `token`, at the place where the old
/// version text began.
pub proof fn lemma_rewritten_reads_back(shape: LineShapeView, s: Seq<char>, token: Seq<char>)
    requires
        shape.well_formed(),
        shape.first_value(s) is Some,
        !has_quote(token),
    ensures
        shape.first_value(s) matches Some((start, end)) && shape.first_value(
            shape.rewritten(s, token),
        ) == Some((start, start + token.len())),
        shape.version_text(shape.rewritten(s, token)) == Some(token),
{
    let (a, b) = shape.first_value(s)->0;
    let t = shape.rewritten(s, token);
    lemma_first_value_from(shape, s, 0);
    lemma_rewritten_keeps_the_rest(shape, s, token);
    let p = choose|p: int|
        {
            &&& 0 <= p < a
            &&& is_line_start(s, p)
            &&& #[trigger] shape.value_at(s, p) == Some((a, b))
            &&& forall|q: int| 0 <= q < p && is_line_start(s, q) ==> shape.value_at(s, q) is None
        };
    assert(agree_before(s, t, a)) by {
        assert forall|i: int| 0 <= i < a implies s[i] == t[i] by {
            assert(t.take(a)[i] == s.take(a)[i]);
        }
    }
    let kp = if shape.indented {
        spaces_end(s, p)
    } else {
        p
    };
    let ap = spaces_end(s, kp + shape.key.len());
    lemma_spaces_end(s, p);
    lemma_spaces_end(s, kp + shape.key.len());
    lemma_spaces_end(s, ap + 1);
    if shape.indented {
        lemma_spaces_end_local(s, t, a, p);
    }
    lemma_has_at_local(s, t, a, kp, shape.key);
    lemma_spaces_end_local(s, t, a, kp + shape.key.len());
    lemma_spaces_end_local(s, t, a, ap + 1);
    assert forall|i: int| a <= i < a + token.len() implies t[i] != '"' by {
        assert(t.subrange(a, a + token.len())[i - a] == token[i - a]);
    }
    lemma_quote_pos_found(t, a, a + token.len());
    assert(shape.value_at(t, p) == Some((a, a + token.len())));
    assert(is_line_start(t, p));
    assert forall|q: int| 0 <= q < p && is_line_start(t, q) implies shape.value_at(t, q)
        is None by {
        if shape.value_at(t, q) is Some {
            lemma_earlier_line_is_shared(shape, s, t, p, q, a, b);
            assert(is_line_start(s, q));
        }
    }
    lemma_first_value_is_first(shape, t, 0, p);
    assert(t.subrange(a, a + token.len()) =~= token);
}

/// Writing the same token a second time changes nothing, provided that the
/// token holds no double quote.
pub proof fn lemma_rewritten_twice(shape: LineShapeView, s: Seq<char>, token: Seq<char>)
    requires
        shape.well_formed(),
        !has_quote(token),
    ensures
        shape.rewritten(shape.rewritten(s, token), token) == shape.rewritten(s, token),
{
    if shape.first_value(s) is Some {
        lemma_rewritten_reads_back(shape, s, token);
        lemma_rewritten_keeps_the_rest(shape, s, token);
        let once = shape.rewritten(s, token);
        assert(shape.rewritten(once, token) =~= once);
    }
}

/// Whether every character of `s` is white space.
pub open spec fn all_spaces(s: Seq<char>) -> bool {
    forall|i: int| 0 <= i < s.len() ==> is_space(#[trigger] s[i])
}

/// A line written by [`LineShapeView::line`] is read as a version line, and
/// its value is the token, provided that the token holds no double quote.
pub proof fn lemma_line_is_read(
    shape: LineShapeView,
    before: Seq<char>,
    after: Seq<char>,
    token: Seq<char>,
)
    requires
        shape.well_formed(),
        all_spaces(before),
        all_spaces(after),
        !has_quote(token),
    ensures
        shape.first_value(shape.line(before, after, token)) matches Some((start, end))
            && start == shape.key.len() + before.len() + after.len() + 2 && end == start
            + token.len(),
        shape.version_text(shape.line(before, after, token)) == Some(token),
{
    let line = shape.line(before, after, token);
    let k = shape.key.len() as int;
    let a = k + before.len();
    let b = a + 1 + after.len();
    let e = b + 1 + token.len();
    assert(line.len() == e + 1);
    assert(line[0] == shape.key[0]);
    assert(line.subrange(0, k) =~= shape.key);
    assert(line[a] == shape.separator);
    assert(line[b] == '"');
    assert(line[e] == '"');
    assert forall|i: int| k <= i < a implies is_space(line[i]) by {
        assert(line[i] == before[i - k]);
    }
    assert forall|i: int| a + 1 <= i < b implies is_space(line[i]) by {
        assert(line[i] == after[i - a - 1]);
    }
    assert forall|i: int| b + 1 <= i < e implies line[i] != '"' by {
        assert(line[i] == token[i - b - 1]);
    }
    lemma_spaces_end_found(line, 0, 0);
    lemma_spaces_end_found(line, k, a);
    lemma_spaces_end_found(line, a + 1, b);
    lemma_quote_pos_found(line, b + 1, e);
    assert(shape.value_at(line, 0) == Some((b + 1, e)));
    assert(line.subrange(b + 1, e) =~= token);
}

/// Writing a token into a line written by [`LineShapeView::line`] gives the
/// line that would have been written with that token in the first place.
pub proof fn lemma_line_is_rewritten(
    shape: LineShapeView,
    before: Seq<char>,
    after: Seq<char>,
    old_token: Seq<char>,
    new_token: Seq<char>,
)
    requires
        shape.well_formed(),
        all_spaces(before),
        all_spaces(after),
        !has_quote(old_token),
    ensures
        shape.rewritten(shape.line(before, after, old_token), new_token) == shape.line(
            before,
            after,
            new_token,
        ),
{
    lemma_line_is_read(shape, before, after, old_token);
    assert(shape.rewritten(shape.line(before, after, old_token), new_token) =~= shape.line(
        before,
        after,
        new_token,
    ));
}

} // verus!
