//! Splitting an input line into tokens.
//!
//! A line is first cut into blobs: stretches inside a matched pair of
//! quotation marks, and the ordinary text between them. Ordinary text is then
//! split on spaces, while quoted text is kept whole.

use vstd::prelude::*;
use vstd::string::StrSliceExecFns;
use vstd::string::StringExecFns;
use crate::text::chars_of;

verus! {

/// The tokens of a line, and whether the line ended in a space.
pub struct Tokenization<'a> {
    pub tokens: Vec<&'a str>,
    pub trailing_space: bool,
}

/// Something that splits a line into tokens.
pub trait Tokenizer {
    /// The tokens of `line`, and whether it ends in a space.
    fn tokenize<'a>(&self, line: &'a str) -> Tokenization<'a>;
}

/// The tokenizer used by the parser: it splits on spaces and keeps quoted
/// text together.
pub struct DefaultTokenizer {
    quotations: Vec<char>,
}

/// A quotation mark found in a line: where it stands, counted in characters,
/// and which mark it is.
#[derive(Debug, PartialEq)]
pub struct QuoteLoc {
    pub pos: usize,
    pub quotation: char,
}

/// Two quotation marks of the same kind that enclose a quoted stretch.
#[derive(Debug, PartialEq)]
pub struct QuotePair {
    pub start: usize,
    pub end: usize,
    pub quotation: char,
}

/// A piece of a line: ordinary text, or the inside of a pair of quotation
/// marks.
#[derive(Debug, PartialEq)]
pub enum Blob<'a> {
    Normal(&'a str),
    Quoted(&'a str),
}

/// The text of a blob together with its kind.
pub enum BlobText {
    Normal(Seq<char>),
    Quoted(Seq<char>),
}

impl DeepView for QuoteLoc {
    type V = (int, char);

    open spec fn deep_view(&self) -> (int, char) {
        (self.pos as int, self.quotation)
    }
}

impl DeepView for QuotePair {
    type V = (int, int);

    open spec fn deep_view(&self) -> (int, int) {
        (self.start as int, self.end as int)
    }
}

impl<'a> DeepView for Blob<'a> {
    type V = BlobText;

    open spec fn deep_view(&self) -> BlobText {
        match self {
            Blob::Normal(s) => BlobText::Normal(s@),
            Blob::Quoted(s) => BlobText::Quoted(s@),
        }
    }
}

impl<'a> Blob<'a> {
    /// An ordinary blob.
    pub fn n(s: &'a str) -> (b: Blob<'a>)
        ensures
            b == Blob::Normal(s),
    {
        Blob::Normal(s)
    }

    /// A quoted blob.
    pub fn q(s: &'a str) -> (b: Blob<'a>)
        ensures
            b == Blob::Quoted(s),
    {
        Blob::Quoted(s)
    }
}

/// The quotation marks of `line`, from left to right: each with its position
/// and its character.
pub open spec fn quote_marks(line: Seq<char>, quotes: Seq<char>) -> Seq<(int, char)>
    decreases line.len(),
{
    if line.len() == 0 {
        Seq::empty()
    } else {
        let before = quote_marks(line.drop_last(), quotes);
        if quotes.contains(line.last()) {
            before.push((line.len() - 1, line.last()))
        } else {
            before
        }
    }
}

/// The index of the first mark at or after `from` that is the character `c`,
/// or `marks.len()` when there is none.
pub open spec fn closing_mark(marks: Seq<(int, char)>, c: char, from: int) -> int
    decreases marks.len() - from,
{
    if from < 0 || from >= marks.len() {
        marks.len() as int
    } else if marks[from].1 == c {
        from
    } else {
        closing_mark(marks, c, from + 1)
    }
}

/// The marks from index `from` on, paired greedily from the left. A mark
/// opens a pair with the next mark of its own kind; marks of other kinds in
/// between are skipped. A mark that no later mark closes is passed over.
pub open spec fn pair_up(marks: Seq<(int, char)>, from: int) -> Seq<(int, int)>
    decreases marks.len() - from,
{
    if from < 0 || from >= marks.len() {
        Seq::empty()
    } else {
        let close = closing_mark(marks, marks[from].1, from + 1);
        if from < close < marks.len() {
            seq![(marks[from].0, marks[close].0)] + pair_up(marks, close + 1)
        } else {
            pair_up(marks, from + 1)
        }
    }
}

/// The pairs of quotation marks of a line, as positions of the opening and
/// the closing mark.
pub open spec fn quote_spans(line: Seq<char>, quotes: Seq<char>) -> Seq<(int, int)> {
    pair_up(quote_marks(line, quotes), 0)
}

/// Pairs that lie one after another inside a line of `n` characters, none
/// starting before `cur`.
pub open spec fn spans_fit(spans: Seq<(int, int)>, cur: int, n: int) -> bool
    decreases spans.len(),
{
    spans.len() == 0 || (cur <= spans[0].0 < spans[0].1 < n && spans_fit(
        spans.drop_first(),
        spans[0].1 + 1,
        n,
    ))
}

/// The blobs of `line` from position `cur` on, given the pairs that are still
/// ahead: the ordinary text before each pair where there is any, the inside of
/// each pair, and the ordinary text after the last pair where there is any.
pub open spec fn blobs_between(line: Seq<char>, spans: Seq<(int, int)>, cur: int) -> Seq<BlobText>
    decreases spans.len(),
{
    if spans.len() == 0 {
        if cur != line.len() {
            seq![BlobText::Normal(line.subrange(cur, line.len() as int))]
        } else {
            Seq::empty()
        }
    } else {
        let lead = if cur != spans[0].0 {
            seq![BlobText::Normal(line.subrange(cur, spans[0].0))]
        } else {
            Seq::empty()
        };
        lead + seq![BlobText::Quoted(line.subrange(spans[0].0 + 1, spans[0].1))] + blobs_between(
            line,
            spans.drop_first(),
            spans[0].1 + 1,
        )
    }
}

/// The blobs that a list of pairs cuts a line into. Without pairs there are
/// none.
pub open spec fn blobs_of_spans(line: Seq<char>, spans: Seq<(int, int)>) -> Seq<BlobText> {
    if spans.len() == 0 {
        Seq::empty()
    } else {
        blobs_between(line, spans, 0)
    }
}

/// The blobs of a line. A line without a pair of quotation marks is one
/// ordinary blob, also when it is empty.
pub open spec fn quote_blobs(line: Seq<char>, quotes: Seq<char>) -> Seq<BlobText> {
    let spans = quote_spans(line, quotes);
    if spans.len() == 0 {
        seq![BlobText::Normal(line)]
    } else {
        blobs_between(line, spans, 0)
    }
}

/// The pieces between the spaces of `s`. There is always one piece more than
/// there are spaces, and pieces may be empty.
pub open spec fn split_on_space(s: Seq<char>) -> Seq<Seq<char>>
    decreases s.len(),
{
    if s.len() == 0 {
        seq![Seq::empty()]
    } else {
        let before = split_on_space(s.drop_last());
        if s.last() == ' ' {
            before.push(Seq::empty())
        } else {
            before.drop_last().push(before.last().push(s.last()))
        }
    }
}

/// Holds of a piece that is not empty.
pub open spec fn nonempty() -> spec_fn(Seq<char>) -> bool {
    |w: Seq<char>| w.len() > 0
}

/// The words of `s`: the pieces between its spaces that are not empty.
pub open spec fn words(s: Seq<char>) -> Seq<Seq<char>> {
    split_on_space(s).filter(nonempty())
}

/// The tokens of one blob.
pub open spec fn blob_words(blob: BlobText) -> Seq<Seq<char>> {
    match blob {
        BlobText::Normal(s) => words(s),
        BlobText::Quoted(s) => seq![s],
    }
}

/// The tokens of a list of blobs: the words of each ordinary blob and each
/// quoted blob as it is, in order.
pub open spec fn blob_tokens(blobs: Seq<BlobText>) -> Seq<Seq<char>>
    decreases blobs.len(),
{
    if blobs.len() == 0 {
        Seq::empty()
    } else {
        blob_tokens(blobs.drop_last()) + blob_words(blobs.last())
    }
}

/// The tokens of a line.
pub open spec fn tokens_of(line: Seq<char>, quotes: Seq<char>) -> Seq<Seq<char>> {
    blob_tokens(quote_blobs(line, quotes))
}

/// Whether a line ends in a space.
pub open spec fn ends_in_space(line: Seq<char>) -> bool {
    line.len() > 0 && line.last() == ' '
}

impl DefaultTokenizer {
    /// A tokenizer that takes each of `quotations` for a quotation mark.
    pub fn new(quotations: Vec<char>) -> (t: DefaultTokenizer)
        ensures
            t.quotes() == quotations@,
    {
        DefaultTokenizer { quotations }
    }

    /// The characters that this tokenizer takes for quotation marks.
    pub closed spec fn quotes(&self) -> Seq<char> {
        self.quotations@
    }

    /// Whether `c` is one of the quotation marks.
    pub fn is_quotation(&self, c: char) -> (r: bool)
        ensures
            r == self.quotes().contains(c),
    {
        let mut i: usize = 0;
        while i < self.quotations.len()
            invariant
                i <= self.quotations.len(),
                forall|k: int| 0 <= k < i ==> self.quotations@[k] != c,
            decreases self.quotations.len() - i,
        {
            if self.quotations[i] == c {
                return true;
            }
            i += 1;
        }
        false
    }

    /// Finds the quotation marks of a line. Nothing is paired here.
    pub fn find_quotes(&self, line: &str) -> (quote_locs: Vec<QuoteLoc>)
        ensures
            quote_locs.deep_view() == quote_marks(line@, self.quotes()),
    {
        let chars = chars_of(line);
        let mut quote_locs: Vec<QuoteLoc> = Vec::new();
        let mut i: usize = 0;
        while i < chars.len()
            invariant
                i <= chars.len(),
                chars@ == line@,
                quote_locs.deep_view() == quote_marks(chars@.take(i as int), self.quotes()),
            decreases chars.len() - i,
        {
            let ch = chars[i];
            if self.is_quotation(ch) {
                let ghost before = quote_locs;
                let loc = QuoteLoc { pos: i, quotation: ch };
                quote_locs.push(loc);
                proof {
                    crate::text::lemma_deep_view_push(before, quote_locs, loc);
                }
            }
            proof {
                let next = chars@.take(i + 1);
                assert(next.drop_last() =~= chars@.take(i as int));
                assert(next.last() == ch);
            }
            i += 1;
        }
        assert(chars@.take(chars.len() as int) =~= chars@);
        quote_locs
    }

    /// Pairs the quotation marks found by `find_quotes`. Going from the left,
    /// a mark is closed by the next mark of the same kind, and the marks in
    /// between are dropped. A mark that nothing closes is passed over.
    pub fn find_quote_pairs(&self, quote_locs: Vec<QuoteLoc>) -> (quote_pairs: Vec<QuotePair>)
        ensures
            quote_pairs.deep_view() == pair_up(quote_locs.deep_view(), 0),
    {
        let mut quote_pairs: Vec<QuotePair> = Vec::new();
        let mut start_idx: usize = 0;
        let ghost marks = quote_locs.deep_view();
        while start_idx < quote_locs.len()
            invariant
                start_idx <= quote_locs.len(),
                marks == quote_locs.deep_view(),
                quote_pairs.deep_view() + pair_up(marks, start_idx as int) == pair_up(marks, 0),
            decreases quote_locs.len() - start_idx,
        {
            let quotation = quote_locs[start_idx].quotation;
            let start = quote_locs[start_idx].pos;
            let mut i: usize = start_idx + 1;
            while i < quote_locs.len() && quote_locs[i].quotation != quotation
                invariant
                    start_idx < i <= quote_locs.len(),
                    marks == quote_locs.deep_view(),
                    closing_mark(marks, quotation, start_idx + 1) == closing_mark(
                        marks,
                        quotation,
                        i as int,
                    ),
                decreases quote_locs.len() - i,
            {
                assert(marks[i as int].1 == quote_locs@[i as int].quotation);
                i += 1;
            }
            assert(marks[start_idx as int] == (start as int, quotation));
            let ghost before = quote_pairs.deep_view();
            let ghost ahead = pair_up(marks, start_idx as int);
            if i < quote_locs.len() {
                assert(marks[i as int] == (quote_locs@[i as int].pos as int, quotation));
                assert(closing_mark(marks, quotation, i as int) == i);
                let end = quote_locs[i].pos;
                quote_pairs.push(QuotePair { start, end, quotation });
                assert(quote_pairs.deep_view() =~= before.push((start as int, end as int)));
                assert(ahead == seq![(start as int, end as int)] + pair_up(marks, i + 1));
                assert(quote_pairs.deep_view() + pair_up(marks, i + 1) =~= before + ahead);
                start_idx = i + 1;
            } else {
                assert(closing_mark(marks, quotation, i as int) == marks.len());
                assert(ahead == pair_up(marks, start_idx + 1));
                start_idx = start_idx + 1;
            }
        }
        assert(quote_pairs.deep_view() + pair_up(marks, start_idx as int)
            =~= quote_pairs.deep_view());
        quote_pairs
    }

    /// Cuts a line into blobs along the given pairs of quotation marks: the
    /// text inside each pair, without the marks, and the ordinary text before,
    /// between and after the pairs, where there is any. Without pairs the
    /// result is empty.
    pub fn construct_slices_from_pairs<'a>(&self, line: &'a str, pairs: Vec<QuotePair>) -> (blobs:
        Vec<Blob<'a>>)
        requires
            spans_fit(pairs.deep_view(), 0, line@.len() as int),
        ensures
            blobs.deep_view() == blobs_of_spans(line@, pairs.deep_view()),
    {
        let mut blobs: Vec<Blob<'a>> = Vec::new();
        if pairs.len() == 0 {
            assert(blobs.deep_view() =~= Seq::<BlobText>::empty());
            return blobs;
        }
        let len = line.unicode_len();
        let ghost spans = pairs.deep_view();
        let mut cur: usize = 0;
        let mut k: usize = 0;
        assert(spans.skip(0) =~= spans);
        assert(blobs.deep_view() + blobs_between(line@, spans, 0) =~= blobs_between(
            line@,
            spans,
            0,
        ));
        while k < pairs.len()
            invariant
                k <= pairs.len(),
                len == line@.len(),
                cur <= len,
                spans == pairs.deep_view(),
                spans_fit(spans.skip(k as int), cur as int, len as int),
                blobs.deep_view() + blobs_between(line@, spans.skip(k as int), cur as int)
                    == blobs_between(line@, spans, 0),
            decreases pairs.len() - k,
        {
            let start = pairs[k].start;
            let end = pairs[k].end;
            let ghost ahead = spans.skip(k as int);
            let ghost before = blobs.deep_view();
            assert(ahead[0] == (start as int, end as int));
            assert(ahead.drop_first() =~= spans.skip(k + 1));
            if cur != start {
                let ghost old_view = blobs.deep_view();
                blobs.push(Blob::Normal(line.substring_char(cur, start)));
                assert(blobs.deep_view() =~= old_view.push(
                    BlobText::Normal(line@.subrange(cur as int, start as int)),
                ));
            }
            let ghost middle = blobs.deep_view();
            blobs.push(Blob::Quoted(line.substring_char(start + 1, end)));
            assert(blobs.deep_view() =~= middle.push(
                BlobText::Quoted(line@.subrange(start + 1, end as int)),
            ));
            assert(blobs.deep_view() + blobs_between(line@, spans.skip(k + 1), end + 1) =~= before
                + blobs_between(line@, ahead, cur as int));
            cur = end + 1;
            k += 1;
        }
        assert(spans.skip(pairs.len() as int) =~= Seq::<(int, int)>::empty());
        if cur != len {
            let ghost old_view = blobs.deep_view();
            blobs.push(Blob::Normal(line.substring_char(cur, len)));
            assert(blobs.deep_view() =~= old_view.push(
                BlobText::Normal(line@.subrange(cur as int, len as int)),
            ));
        }
        assert(blobs.deep_view() =~= blobs_between(line@, spans, 0));
        blobs
    }

    /// Cuts a line into quoted and ordinary blobs. A line without a pair of
    /// quotation marks is one ordinary blob.
    pub fn split_into_quote_blobs<'a>(&self, line: &'a str) -> (blobs: Vec<Blob<'a>>)
        ensures
            blobs.deep_view() == quote_blobs(line@, self.quotes()),
    {
        let quote_locs = self.find_quotes(line);
        let quote_pairs = self.find_quote_pairs(quote_locs);
        if quote_pairs.len() == 0 {
            let mut blobs: Vec<Blob<'a>> = Vec::new();
            blobs.push(Blob::Normal(line));
            assert(blobs.deep_view() =~= seq![BlobText::Normal(line@)]);
            return blobs;
        }
        proof {
            lemma_quote_spans_fit(line@, self.quotes());
        }
        self.construct_slices_from_pairs(line, quote_pairs)
    }

    /// Splits the ordinary blobs on spaces, dropping what is empty, and keeps
    /// each quoted blob as one token.
    pub fn split_by_space<'a>(&self, line_blobs: Vec<Blob<'a>>) -> (tokens: Vec<&'a str>)
        ensures
            tokens.deep_view() == blob_tokens(line_blobs.deep_view()),
    {
        let mut tokens: Vec<&'a str> = Vec::new();
        let ghost blobs = line_blobs.deep_view();
        let mut k: usize = 0;
        assert(blobs.take(0) =~= Seq::<BlobText>::empty());
        assert(tokens.deep_view() =~= blob_tokens(blobs.take(0)));
        while k < line_blobs.len()
            invariant
                k <= line_blobs.len(),
                blobs == line_blobs.deep_view(),
                tokens.deep_view() == blob_tokens(blobs.take(k as int)),
            decreases line_blobs.len() - k,
        {
            let ghost before = tokens.deep_view();
            proof {
                let next = blobs.take(k + 1);
                assert(next.drop_last() =~= blobs.take(k as int));
                assert(next.last() == blobs[k as int]);
            }
            match line_blobs[k] {
                Blob::Normal(s) => {
                    push_words(&mut tokens, s);
                },
                Blob::Quoted(s) => {
                    tokens.push(s);
                    assert(tokens.deep_view() =~= before + seq![s@]);
                },
            }
            k += 1;
        }
        assert(blobs.take(line_blobs.len() as int) =~= blobs);
        tokens
    }
}

/// Appends the words of `s` to `tokens`.
pub fn push_words<'a>(tokens: &mut Vec<&'a str>, s: &'a str)
    ensures
        final(tokens).deep_view() == old(tokens).deep_view() + words(s@),
{
    let chars = chars_of(s);
    let ghost before = tokens.deep_view();
    let mut start: usize = 0;
    let mut i: usize = 0;
    proof {
        reveal(Seq::filter);
        assert(chars@.take(0) =~= Seq::<char>::empty());
        assert(split_on_space(chars@.take(0)).drop_last() =~= Seq::<Seq<char>>::empty());
        assert(chars@.subrange(0, 0) =~= Seq::<char>::empty());
        assert(tokens.deep_view() =~= before + split_on_space(chars@.take(0)).drop_last().filter(
            nonempty(),
        ));
    }
    while i < chars.len()
        invariant
            start <= i <= chars.len(),
            chars@ == s@,
            split_on_space(chars@.take(i as int)).len() >= 1,
            split_on_space(chars@.take(i as int)).last() == chars@.subrange(start as int, i as int),
            tokens.deep_view() == before + split_on_space(chars@.take(i as int)).drop_last().filter(
                nonempty(),
            ),
        decreases chars.len() - i,
    {
        let ghost pieces = split_on_space(chars@.take(i as int));
        let ghost next = chars@.take(i + 1);
        let ghost held = tokens.deep_view();
        proof {
            assert(next.drop_last() =~= chars@.take(i as int));
            assert(next.last() == chars@[i as int]);
            lemma_split_has_piece(next);
        }
        if chars[i] == ' ' {
            if i > start {
                tokens.push(s.substring_char(start, i));
                assert(tokens.deep_view() =~= held.push(chars@.subrange(start as int, i as int)));
            }
            proof {
                let done = pieces.drop_last();
                assert(split_on_space(next) == pieces.push(Seq::<char>::empty()));
                assert(split_on_space(next).drop_last() =~= done.push(pieces.last()));
                done.lemma_filter_push(pieces.last(), nonempty());
                assert(chars@.subrange(i + 1, i + 1) =~= Seq::<char>::empty());
            }
            start = i + 1;
        } else {
            proof {
                assert(split_on_space(next) == pieces.drop_last().push(
                    pieces.last().push(chars@[i as int]),
                ));
                assert(split_on_space(next).drop_last() =~= pieces.drop_last());
                assert(chars@.subrange(start as int, i + 1) =~= pieces.last().push(
                    chars@[i as int],
                ));
            }
        }
        i += 1;
    }
    let ghost pieces = split_on_space(chars@);
    let ghost held = tokens.deep_view();
    assert(chars@.take(chars.len() as int) =~= chars@);
    if chars.len() > start {
        tokens.push(s.substring_char(start, chars.len()));
        assert(tokens.deep_view() =~= held.push(chars@.subrange(start as int, chars.len() as int)));
    }
    proof {
        let done = pieces.drop_last();
        assert(done.push(pieces.last()) =~= pieces);
        done.lemma_filter_push(pieces.last(), nonempty());
    }
}

/// The pieces between the spaces of `s`, empty ones too.
pub fn split_spaces(s: &str) -> (pieces: Vec<String>)
    ensures
        pieces.deep_view() == split_on_space(s@),
{
    let chars = chars_of(s);
    let mut pieces: Vec<String> = Vec::new();
    let mut start: usize = 0;
    let mut i: usize = 0;
    proof {
        assert(chars@.take(0) =~= Seq::<char>::empty());
        assert(split_on_space(chars@.take(0)).drop_last() =~= Seq::<Seq<char>>::empty());
        assert(chars@.subrange(0, 0) =~= Seq::<char>::empty());
        assert(pieces.deep_view() =~= split_on_space(chars@.take(0)).drop_last());
    }
    while i < chars.len()
        invariant
            start <= i <= chars.len(),
            chars@ == s@,
            split_on_space(chars@.take(i as int)).len() >= 1,
            split_on_space(chars@.take(i as int)).last() == chars@.subrange(start as int, i as int),
            pieces.deep_view() == split_on_space(chars@.take(i as int)).drop_last(),
        decreases chars.len() - i,
    {
        let ghost before = split_on_space(chars@.take(i as int));
        let ghost next = chars@.take(i + 1);
        proof {
            assert(next.drop_last() =~= chars@.take(i as int));
            assert(next.last() == chars@[i as int]);
            lemma_split_has_piece(next);
        }
        if chars[i] == ' ' {
            let ghost held = pieces;
            let piece = String::from_str(s.substring_char(start, i));
            pieces.push(piece);
            proof {
                crate::text::lemma_deep_view_push(held, pieces, piece);
                assert(split_on_space(next) == before.push(Seq::<char>::empty()));
                assert(split_on_space(next).drop_last() =~= before.drop_last().push(before.last()));
                assert(chars@.subrange(i + 1, i + 1) =~= Seq::<char>::empty());
            }
            start = i + 1;
        } else {
            proof {
                assert(split_on_space(next) == before.drop_last().push(
                    before.last().push(chars@[i as int]),
                ));
                assert(split_on_space(next).drop_last() =~= before.drop_last());
                assert(chars@.subrange(start as int, i + 1) =~= before.last().push(
                    chars@[i as int],
                ));
            }
        }
        i += 1;
    }
    let ghost all = split_on_space(chars@);
    let ghost held = pieces;
    assert(chars@.take(chars.len() as int) =~= chars@);
    let piece = String::from_str(s.substring_char(start, chars.len()));
    pieces.push(piece);
    proof {
        crate::text::lemma_deep_view_push(held, pieces, piece);
        assert(all.drop_last().push(all.last()) =~= all);
    }
    pieces
}

impl Tokenizer for DefaultTokenizer {
    /// Splits a line into its tokens. Text inside a pair of quotation marks is
    /// one token, without the marks; the rest is split on spaces.
    fn tokenize<'a>(&self, line: &'a str) -> (t: Tokenization<'a>)
        ensures
            t.tokens.deep_view() == tokens_of(line@, self.quotes()),
            t.trailing_space == ends_in_space(line@),
    {
        let line_blobs = self.split_into_quote_blobs(line);
        let tokens = self.split_by_space(line_blobs);
        let chars = chars_of(line);
        let trailing_space = chars.len() > 0 && chars[chars.len() - 1] == ' ';
        Tokenization { tokens, trailing_space }
    }
}

/// Marks that stand at increasing positions inside a line of `n` characters.
pub open spec fn marks_ascend(marks: Seq<(int, char)>, n: int) -> bool {
    &&& forall|i: int| 0 <= i < marks.len() ==> 0 <= (#[trigger] marks[i]).0 < n
    &&& forall|i: int, j: int|
        0 <= i < j < marks.len() ==> (#[trigger] marks[i]).0 < (#[trigger] marks[j]).0
}

/// The marks of a line stand at increasing positions inside it.
pub proof fn lemma_quote_marks_ascend(line: Seq<char>, quotes: Seq<char>)
    ensures
        marks_ascend(quote_marks(line, quotes), line.len() as int),
    decreases line.len(),
{
    if line.len() > 0 {
        lemma_quote_marks_ascend(line.drop_last(), quotes);
    }
}

/// The index that `closing_mark` gives lies after `from` and holds the
/// character asked for.
pub proof fn lemma_closing_mark(marks: Seq<(int, char)>, c: char, from: int)
    requires
        0 <= from <= marks.len(),
    ensures
        from <= closing_mark(marks, c, from) <= marks.len(),
        closing_mark(marks, c, from) < marks.len() ==> marks[closing_mark(marks, c, from)].1 == c,
    decreases marks.len() - from,
{
    if from < marks.len() && marks[from].1 != c {
        lemma_closing_mark(marks, c, from + 1);
    }
}

/// Pairs that fit from one position on also fit from any earlier one.
pub proof fn lemma_spans_fit_earlier(spans: Seq<(int, int)>, cur: int, earlier: int, n: int)
    requires
        spans_fit(spans, cur, n),
        earlier <= cur,
    ensures
        spans_fit(spans, earlier, n),
{
}

/// Marks at increasing positions pair up into pairs that lie one after
/// another inside the line.
pub proof fn lemma_pair_up_fits(marks: Seq<(int, char)>, from: int, n: int)
    requires
        marks_ascend(marks, n),
        0 <= from <= marks.len(),
    ensures
        spans_fit(pair_up(marks, from), if from < marks.len() { marks[from].0 } else { n }, n),
    decreases marks.len() - from,
{
    if from < marks.len() {
        let close = closing_mark(marks, marks[from].1, from + 1);
        lemma_closing_mark(marks, marks[from].1, from + 1);
        if close < marks.len() {
            let rest = pair_up(marks, close + 1);
            lemma_pair_up_fits(marks, close + 1, n);
            let whole = seq![(marks[from].0, marks[close].0)] + rest;
            assert(whole.drop_first() =~= rest);
            if close + 1 < marks.len() {
                lemma_spans_fit_earlier(rest, marks[close + 1].0, marks[close].0 + 1, n);
            } else {
                lemma_spans_fit_earlier(rest, n, marks[close].0 + 1, n);
            }
        } else {
            lemma_pair_up_fits(marks, from + 1, n);
            if from + 1 < marks.len() {
                lemma_spans_fit_earlier(pair_up(marks, from + 1), marks[from + 1].0, marks[from].0, n);
            } else {
                lemma_spans_fit_earlier(pair_up(marks, from + 1), n, marks[from].0, n);
            }
        }
    }
}

/// The pairs of quotation marks of a line lie one after another inside it.
pub proof fn lemma_quote_spans_fit(line: Seq<char>, quotes: Seq<char>)
    ensures
        spans_fit(quote_spans(line, quotes), 0, line.len() as int),
{
    let marks = quote_marks(line, quotes);
    lemma_quote_marks_ascend(line, quotes);
    lemma_pair_up_fits(marks, 0, line.len() as int);
    if marks.len() > 0 {
        lemma_spans_fit_earlier(pair_up(marks, 0), marks[0].0, 0, line.len() as int);
    } else {
        lemma_spans_fit_earlier(pair_up(marks, 0), line.len() as int, 0, line.len() as int);
    }
}

/// The text that a list of blobs was cut from: the blobs one after another,
/// each quoted blob between its quotation mark. `marks` holds the mark of
/// each quoted blob, in order.
pub open spec fn glued(blobs: Seq<BlobText>, marks: Seq<char>) -> Seq<char>
    decreases blobs.len(),
{
    if blobs.len() == 0 {
        Seq::empty()
    } else {
        match blobs[0] {
            BlobText::Normal(s) => s + glued(blobs.drop_first(), marks),
            BlobText::Quoted(s) => seq![marks[0]] + s + seq![marks[0]] + glued(
                blobs.drop_first(),
                marks.drop_first(),
            ),
        }
    }
}

/// The character that stands at the start of each pair.
pub open spec fn opening_marks(line: Seq<char>, spans: Seq<(int, int)>) -> Seq<char> {
    Seq::new(spans.len(), |k: int| line[spans[k].0])
}

/// Marks that say the truth about a line: each is a quotation mark and
/// stands in the line at its position.
pub open spec fn marks_hold(marks: Seq<(int, char)>, line: Seq<char>, quotes: Seq<char>) -> bool {
    forall|i: int|
        0 <= i < marks.len() ==> 0 <= (#[trigger] marks[i]).0 < line.len() && line[marks[i].0]
            == marks[i].1 && quotes.contains(marks[i].1)
}

/// Pairs that begin and end with the same quotation mark of a line.
pub open spec fn spans_enclosed(spans: Seq<(int, int)>, line: Seq<char>, quotes: Seq<char>) -> bool {
    forall|k: int|
        0 <= k < spans.len() ==> 0 <= (#[trigger] spans[k]).0 < line.len() && 0 <= spans[k].1
            < line.len() && line[spans[k].0] == line[spans[k].1] && quotes.contains(
            line[spans[k].0],
        )
}

/// The marks of a line say the truth about it.
pub proof fn lemma_quote_marks_hold(line: Seq<char>, quotes: Seq<char>)
    ensures
        marks_hold(quote_marks(line, quotes), line, quotes),
    decreases line.len(),
{
    if line.len() > 0 {
        lemma_quote_marks_hold(line.drop_last(), quotes);
        let before = quote_marks(line.drop_last(), quotes);
        let marks = quote_marks(line, quotes);
        assert forall|i: int| 0 <= i < marks.len() implies 0 <= (#[trigger] marks[i]).0 < line.len()
            && line[marks[i].0] == marks[i].1 && quotes.contains(marks[i].1) by {
            if i < before.len() {
                assert(marks[i] == before[i]);
                assert(line.drop_last()[before[i].0] == line[before[i].0]);
            }
        }
    }
}

/// Marks that say the truth pair up into pairs that begin and end with the
/// same quotation mark.
pub proof fn lemma_pair_up_enclosed(
    marks: Seq<(int, char)>,
    from: int,
    line: Seq<char>,
    quotes: Seq<char>,
)
    requires
        marks_hold(marks, line, quotes),
        0 <= from <= marks.len(),
    ensures
        spans_enclosed(pair_up(marks, from), line, quotes),
    decreases marks.len() - from,
{
    if from < marks.len() {
        let close = closing_mark(marks, marks[from].1, from + 1);
        lemma_closing_mark(marks, marks[from].1, from + 1);
        if close < marks.len() {
            lemma_pair_up_enclosed(marks, close + 1, line, quotes);
            let rest = pair_up(marks, close + 1);
            let whole = pair_up(marks, from);
            assert forall|k: int| 0 <= k < whole.len() implies 0 <= (#[trigger] whole[k]).0
                < line.len() && 0 <= whole[k].1 < line.len() && line[whole[k].0] == line[whole[k].1]
                && quotes.contains(line[whole[k].0]) by {
                if k > 0 {
                    assert(whole[k] == rest[k - 1]);
                }
            }
        } else {
            lemma_pair_up_enclosed(marks, from + 1, line, quotes);
        }
    }
}

/// The blobs behind a position, glued together again, are the line behind
/// that position.
pub proof fn lemma_blobs_between_cover(
    line: Seq<char>,
    quotes: Seq<char>,
    spans: Seq<(int, int)>,
    cur: int,
)
    requires
        0 <= cur <= line.len(),
        spans_fit(spans, cur, line.len() as int),
        spans_enclosed(spans, line, quotes),
    ensures
        glued(blobs_between(line, spans, cur), opening_marks(line, spans)) == line.subrange(
            cur,
            line.len() as int,
        ),
    decreases spans.len(),
{
    let len = line.len() as int;
    let blobs = blobs_between(line, spans, cur);
    let marks = opening_marks(line, spans);
    if spans.len() == 0 {
        if cur != len {
            assert(blobs.drop_first() =~= Seq::<BlobText>::empty());
            assert(glued(blobs.drop_first(), marks) =~= Seq::<char>::empty());
            assert(glued(blobs, marks) =~= line.subrange(cur, len));
        } else {
            assert(glued(blobs, marks) =~= line.subrange(cur, len));
        }
    } else {
        let (start, end) = spans[0];
        let later = spans.drop_first();
        let rest = blobs_between(line, later, end + 1);
        assert(spans_enclosed(later, line, quotes)) by {
            assert forall|k: int| 0 <= k < later.len() implies 0 <= (#[trigger] later[k]).0
                < line.len() && 0 <= later[k].1 < line.len() && line[later[k].0] == line[later[k].1]
                && quotes.contains(line[later[k].0]) by {
                assert(later[k] == spans[k + 1]);
            }
        }
        lemma_blobs_between_cover(line, quotes, later, end + 1);
        assert(marks.drop_first() =~= opening_marks(line, later));
        assert(marks[0] == line[start]);
        assert(line[start] == line[end]);
        let inner = line.subrange(start + 1, end);
        let quoted = seq![BlobText::Quoted(inner)] + rest;
        assert(quoted.drop_first() =~= rest);
        assert(glued(quoted, marks) == seq![line[start]] + inner + seq![line[end]] + glued(
            rest,
            marks.drop_first(),
        ));
        assert(glued(quoted, marks) =~= line.subrange(start, len));
        if cur != start {
            assert(blobs =~= seq![BlobText::Normal(line.subrange(cur, start))] + quoted);
            assert(blobs.drop_first() =~= quoted);
            assert(glued(blobs, marks) =~= line.subrange(cur, len));
        } else {
            assert(blobs =~= quoted);
        }
    }
}

/// No character is lost or doubled: the blobs of a line, glued together
/// again with each quoted blob between its quotation mark, are the line.
pub proof fn lemma_blobs_cover(line: Seq<char>, quotes: Seq<char>)
    ensures
        glued(quote_blobs(line, quotes), opening_marks(line, quote_spans(line, quotes))) == line,
        spans_enclosed(quote_spans(line, quotes), line, quotes),
{
    let spans = quote_spans(line, quotes);
    let marks = quote_marks(line, quotes);
    lemma_quote_marks_hold(line, quotes);
    lemma_pair_up_enclosed(marks, 0, line, quotes);
    lemma_quote_spans_fit(line, quotes);
    if spans.len() == 0 {
        let blobs = seq![BlobText::Normal(line)];
        assert(blobs.drop_first() =~= Seq::<BlobText>::empty());
        assert(glued(blobs.drop_first(), opening_marks(line, spans)) =~= Seq::<char>::empty());
        assert(glued(blobs, opening_marks(line, spans)) =~= line);
    } else {
        lemma_blobs_between_cover(line, quotes, spans, 0);
        assert(line.subrange(0, line.len() as int) =~= line);
    }
}

/// Splitting on spaces always yields at least one piece.
pub proof fn lemma_split_has_piece(s: Seq<char>)
    ensures
        split_on_space(s).len() >= 1,
    decreases s.len(),
{
    if s.len() > 0 {
        lemma_split_has_piece(s.drop_last());
    }
}

/// Text without a space added behind `s` extends the last piece of `s`.
pub proof fn lemma_split_append_word(s: Seq<char>, w: Seq<char>)
    requires
        !w.contains(' '),
    ensures
        split_on_space(s + w) == split_on_space(s).drop_last().push(split_on_space(s).last() + w),
    decreases w.len(),
{
    lemma_split_has_piece(s);
    let pieces = split_on_space(s);
    if w.len() == 0 {
        assert(s + w =~= s);
        assert(pieces.last() + w =~= pieces.last());
        assert(pieces.drop_last().push(pieces.last()) =~= pieces);
    } else {
        let shorter = w.drop_last();
        assert(!shorter.contains(' ')) by {
            if shorter.contains(' ') {
                let i = choose|i: int| 0 <= i < shorter.len() && shorter[i] == ' ';
                assert(w[i] == ' ');
            }
        }
        assert(w.last() != ' ') by {
            assert(w[w.len() - 1] == w.last());
        }
        lemma_split_append_word(s, shorter);
        assert((s + w).drop_last() =~= s + shorter);
        assert((s + w).last() == w.last());
        let before = split_on_space(s + shorter);
        assert(before.drop_last() =~= pieces.drop_last());
        assert(before.last().push(w.last()) =~= pieces.last() + w);
    }
}

/// Joining words by single spaces and splitting on spaces again gives the
/// words back.
pub proof fn lemma_split_joined(parts: Seq<Seq<char>>)
    requires
        parts.len() >= 1,
        forall|i: int| 0 <= i < parts.len() ==> !(#[trigger] parts[i]).contains(' '),
    ensures
        split_on_space(crate::text::joined(parts, seq![' '])) == parts,
    decreases parts.len(),
{
    let sep = seq![' '];
    if parts.len() == 1 {
        let empty = Seq::<char>::empty();
        lemma_split_append_word(empty, parts[0]);
        assert(empty + parts[0] =~= parts[0]);
        assert(split_on_space(empty) =~= seq![empty]);
        assert(split_on_space(empty).drop_last().push(empty + parts[0]) =~= parts);
    } else {
        let front = parts.drop_last();
        lemma_split_joined(front);
        let head = crate::text::joined(front, sep);
        assert((head + sep).drop_last() =~= head);
        assert((head + sep).last() == ' ');
        assert(split_on_space(head + sep) == front.push(Seq::<char>::empty()));
        lemma_split_append_word(head + sep, parts.last());
        assert(front.push(Seq::<char>::empty()).drop_last() =~= front);
        assert(Seq::<char>::empty() + parts.last() =~= parts.last());
        assert(front.push(parts.last()) =~= parts);
    }
}

/// A list of pieces that are all non-empty is its own list of words.
pub proof fn lemma_filter_keeps_all(parts: Seq<Seq<char>>)
    requires
        forall|i: int| 0 <= i < parts.len() ==> (#[trigger] parts[i]).len() > 0,
    ensures
        parts.filter(nonempty()) == parts,
    decreases parts.len(),
{
    reveal(Seq::filter);
    if parts.len() > 0 {
        lemma_filter_keeps_all(parts.drop_last());
        assert(parts.drop_last().push(parts.last()) =~= parts);
    }
}

/// Round trip on unquoted input: when the words of a list are non-empty and
/// free of spaces, and the line made by joining them with single spaces holds
/// no pair of quotation marks, tokenizing that line gives the list back.
pub proof fn lemma_tokenize_round_trip(parts: Seq<Seq<char>>, quotes: Seq<char>)
    requires
        forall|i: int| 0 <= i < parts.len() ==> (#[trigger] parts[i]).len() > 0,
        forall|i: int| 0 <= i < parts.len() ==> !(#[trigger] parts[i]).contains(' '),
        quote_spans(crate::text::joined(parts, seq![' ']), quotes).len() == 0,
    ensures
        tokens_of(crate::text::joined(parts, seq![' ']), quotes) == parts,
{
    let line = crate::text::joined(parts, seq![' ']);
    lemma_one_normal_blob(line);
    if parts.len() == 0 {
        let empty = Seq::<char>::empty();
        let none = Seq::<Seq<char>>::empty();
        reveal(Seq::filter);
        assert(split_on_space(line) =~= none.push(empty));
        none.lemma_filter_push(empty, nonempty());
        assert(words(line) =~= parts);
    } else {
        lemma_split_joined(parts);
        lemma_filter_keeps_all(parts);
    }
}

/// Round trip on words without quotation marks: when the words of a list
/// are non-empty and hold neither a space nor a quotation mark, and the space
/// is no quotation mark, tokenizing the words joined by single spaces gives
/// the list back.
pub proof fn lemma_tokenize_round_trip_plain(parts: Seq<Seq<char>>, quotes: Seq<char>)
    requires
        forall|i: int| 0 <= i < parts.len() ==> (#[trigger] parts[i]).len() > 0,
        forall|i: int| 0 <= i < parts.len() ==> !(#[trigger] parts[i]).contains(' '),
        forall|i: int, j: int|
            0 <= i < parts.len() && 0 <= j < parts[i].len() ==> !quotes.contains(
                #[trigger] parts[i][j],
            ),
        !quotes.contains(' '),
    ensures
        tokens_of(crate::text::joined(parts, seq![' ']), quotes) == parts,
{
    let line = crate::text::joined(parts, seq![' ']);
    crate::text::lemma_joined_chars(parts, seq![' '], |c: char| !quotes.contains(c));
    lemma_no_marks_no_spans(line, quotes);
    lemma_tokenize_round_trip(parts, quotes);
}

/// The tokens of a single ordinary blob are its words.
pub proof fn lemma_one_normal_blob(s: Seq<char>)
    ensures
        blob_tokens(seq![BlobText::Normal(s)]) == words(s),
{
    let blobs = seq![BlobText::Normal(s)];
    assert(blobs.drop_last() =~= Seq::<BlobText>::empty());
    assert(blob_tokens(blobs.drop_last()) =~= Seq::<Seq<char>>::empty());
    assert(blob_tokens(blobs) =~= words(s));
}

/// A line in which no character is a quotation mark holds no pair of
/// quotation marks.
pub proof fn lemma_no_marks_no_spans(line: Seq<char>, quotes: Seq<char>)
    requires
        forall|i: int| 0 <= i < line.len() ==> !quotes.contains(#[trigger] line[i]),
    ensures
        quote_marks(line, quotes).len() == 0,
        quote_spans(line, quotes).len() == 0,
    decreases line.len(),
{
    if line.len() > 0 {
        lemma_no_marks_no_spans(line.drop_last(), quotes);
        assert(line.last() == line[line.len() - 1]);
    }
}

} // verus!
