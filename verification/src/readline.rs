//! What a line editor asks of the shell: candidates for completion, and
//! whether a line is finished.

use vstd::prelude::*;
use vstd::string::StrSliceExecFns;
use vstd::string::StringExecFns;
use vstd::string::StringSliceAdditionalSpecFns;
use crate::command::Completion;
use crate::command_set::CommandSet;
use crate::parser::Outcome;
use crate::parser::Parser;
use crate::text::chars_of;
use crate::text::starts_with;

verus! {

/// A candidate for completion: the text that is listed and the text that is
/// put into the line.
#[derive(Debug, PartialEq)]
pub struct Pair {
    pub display: String,
    pub replacement: String,
}

/// What a check of the input so far says.
#[derive(Debug, PartialEq)]
pub enum ValidationResult {
    /// The input is not finished: more is to come.
    Incomplete,
    /// The input is wrong, with an optional message.
    Invalid(Option<String>),
    /// The input is fine, with an optional message.
    Valid(Option<String>),
}

/// Decides whether the input so far is a finished line.
pub struct ExecValidator {}

/// Offers candidates for completion from two command sets.
#[verifier::reject_recursive_types(S)]
#[verifier::reject_recursive_types(B)]
pub struct ExecCompleter<'b, 'a, S, B> {
    parser: Parser,
    cmds: &'b CommandSet<'a, S>,
    builtins: &'b CommandSet<'a, B>,
}

/// Where a walk through the input stands with respect to quotation.
pub struct QuoteScan {
    /// Whether the next character is escaped by a backslash.
    pub escaped: bool,
    /// The quotation mark that is open, if any.
    pub open: Option<char>,
}

/// The walk after one more character. A backslash turns escaping on or off.
/// A `"` or `'` that is not escaped opens a quotation where none is open and
/// closes the one that it opened; inside a quotation of the other kind it
/// does nothing. Every character but a backslash ends escaping.
pub open spec fn scan_step(st: QuoteScan, ch: char) -> QuoteScan {
    if ch == '\\' {
        QuoteScan { escaped: !st.escaped, open: st.open }
    } else if (ch == '"' || ch == '\'') && !st.escaped {
        match st.open {
            None => QuoteScan { escaped: false, open: Some(ch) },
            Some(mark) => if mark == ch {
                QuoteScan { escaped: false, open: None }
            } else {
                QuoteScan { escaped: false, open: Some(mark) }
            },
        }
    } else {
        QuoteScan { escaped: false, open: st.open }
    }
}

/// The walk through all of `input`, from the left.
pub open spec fn scan(input: Seq<char>) -> QuoteScan
    decreases input.len(),
{
    if input.len() == 0 {
        QuoteScan { escaped: false, open: None }
    } else {
        scan_step(scan(input.drop_last()), input.last())
    }
}

/// Whether a quotation is still open at the end of `input`.
pub open spec fn in_quote(input: Seq<char>) -> bool {
    scan(input).open is Some
}

/// The first result that is not `Valid`; `Valid` without a message where all
/// are.
pub open spec fn first_objection(results: Seq<ValidationResult>) -> ValidationResult
    decreases results.len(),
{
    if results.len() == 0 {
        ValidationResult::Valid(None)
    } else if results[0] is Valid {
        first_objection(results.drop_first())
    } else {
        results[0]
    }
}

/// What the quotation marks of `input` say: incomplete while one is open.
pub open spec fn quotes_verdict(input: Seq<char>) -> ValidationResult {
    if in_quote(input) {
        ValidationResult::Incomplete
    } else {
        ValidationResult::Valid(None)
    }
}

/// What the end of `input` says: incomplete after a backslash.
pub open spec fn multiline_verdict(input: Seq<char>) -> ValidationResult {
    if input.len() > 0 && input.last() == '\\' {
        ValidationResult::Incomplete
    } else {
        ValidationResult::Valid(None)
    }
}

impl ExecValidator {
    /// A validator.
    pub fn new() -> ExecValidator {
        ExecValidator {  }
    }

    /// Whether a quotation is still open at the end of `input`.
    pub fn is_currently_in_quote(&self, input: &str) -> (r: bool)
        ensures
            r == in_quote(input@),
    {
        let chars = chars_of(input);
        let mut escaped = false;
        let mut currently_in_quote = false;
        let mut current_quote = ' ';
        let mut i: usize = 0;
        assert(chars@.take(0) =~= Seq::<char>::empty());
        while i < chars.len()
            invariant
                i <= chars@.len(),
                chars@ == input@,
                scan(chars@.take(i as int)).escaped == escaped,
                scan(chars@.take(i as int)).open == if currently_in_quote {
                    Some(current_quote)
                } else {
                    None
                },
            decreases chars@.len() - i,
        {
            let ch = chars[i];
            proof {
                let next = chars@.take(i + 1);
                assert(next.drop_last() =~= chars@.take(i as int));
                assert(next.last() == ch);
            }
            i += 1;
            if ch == '\\' {
                escaped = !escaped;
                continue;
            }
            let is_quote = ch == '"' || ch == '\'';
            if is_quote && !escaped {
                if currently_in_quote && ch == current_quote {
                    currently_in_quote = false;
                    current_quote = ' ';
                } else if currently_in_quote && ch != current_quote {
                    continue;
                } else {
                    currently_in_quote = true;
                    current_quote = ch;
                }
            }
            escaped = false;
        }
        assert(chars@.take(chars@.len() as int) =~= chars@);
        currently_in_quote
    }

    /// Incomplete while a quotation is open, else valid.
    pub fn validate_quotes(&self, cur_input: &str) -> (r: ValidationResult)
        ensures
            r == quotes_verdict(cur_input@),
    {
        if self.is_currently_in_quote(cur_input) {
            return ValidationResult::Incomplete;
        }
        ValidationResult::Valid(None)
    }

    /// Incomplete where the input ends in a backslash, which announces
    /// another line; else valid.
    pub fn validate_multiline(&self, cur_input: &str) -> (r: ValidationResult)
        ensures
            r == multiline_verdict(cur_input@),
    {
        let chars = chars_of(cur_input);
        if chars.len() > 0 && chars[chars.len() - 1] == '\\' {
            return ValidationResult::Incomplete;
        }
        ValidationResult::Valid(None)
    }

    /// The first result that is not valid; valid where all are.
    pub fn merge_validation_results(&self, reses: Vec<ValidationResult>) -> (r: ValidationResult)
        ensures
            r == first_objection(reses@),
    {
        let ghost all = reses@;
        assert(all.skip(0) =~= all);
        for res in it: reses
            invariant
                it.seq() == all,
                first_objection(all) == first_objection(all.skip(it.index() as int)),
        {
            proof {
                let ahead = all.skip(it.index() as int);
                assert(ahead[0] == res);
                assert(ahead.drop_first() =~= all.skip(it.index() + 1));
            }
            match res {
                ValidationResult::Valid(_) => {},
                _ => {
                    return res;
                },
            }
        }
        ValidationResult::Valid(None)
    }

    /// Puts together what the brackets, the quotation marks and the end of
    /// the input say: the first of the three that is not valid, in this
    /// order; valid where all are.
    pub fn validate(&self, brackets: ValidationResult, input: &str) -> (r: ValidationResult)
        ensures
            r == first_objection(seq![brackets, quotes_verdict(input@), multiline_verdict(input@)]),
            r is Invalid ==> brackets is Invalid,
    {
        proof {
            lemma_only_brackets_invalidate(brackets, input@);
        }
        let mut reses: Vec<ValidationResult> = Vec::new();
        reses.push(brackets);
        reses.push(self.validate_quotes(input));
        reses.push(self.validate_multiline(input));
        assert(reses@ =~= seq![brackets, quotes_verdict(input@), multiline_verdict(input@)]);
        self.merge_validation_results(reses)
    }
}

/// Quotation marks and the end of the input never make an input invalid:
/// an open quotation or a backslash at the end only asks for more. The
/// input is invalid only where the brackets say so.
pub proof fn lemma_only_brackets_invalidate(brackets: ValidationResult, input: Seq<char>)
    ensures
        first_objection(seq![brackets, quotes_verdict(input), multiline_verdict(input)]) is Invalid
            ==> brackets is Invalid,
        brackets is Valid && !in_quote(input) && !(input.len() > 0 && input.last() == '\\')
            ==> first_objection(
            seq![brackets, quotes_verdict(input), multiline_verdict(input)],
        ) is Valid,
{
    let all = seq![brackets, quotes_verdict(input), multiline_verdict(input)];
    let two = seq![quotes_verdict(input), multiline_verdict(input)];
    let one = seq![multiline_verdict(input)];
    let none = Seq::<ValidationResult>::empty();
    assert(all.drop_first() =~= two);
    assert(two.drop_first() =~= one);
    assert(one.drop_first() =~= none);
    assert(first_objection(none) is Valid);
    assert(first_objection(one) == if one[0] is Valid {
        first_objection(none)
    } else {
        one[0]
    });
    assert(first_objection(two) == if two[0] is Valid {
        first_objection(one)
    } else {
        two[0]
    });
    assert(first_objection(all) == if all[0] is Valid {
        first_objection(two)
    } else {
        all[0]
    });
}

/// The input without the breaks that continue a line: each backslash that
/// is followed by a line feed is left out together with the line feed, from
/// the left.
pub open spec fn without_continuations(input: Seq<char>) -> Seq<char>
    decreases input.len(),
{
    if input.len() < 2 {
        input
    } else if input[0] == '\\' && input[1] == '\n' {
        without_continuations(input.skip(2))
    } else {
        seq![input[0]] + without_continuations(input.skip(1))
    }
}

/// Joins the lines of an input that was continued over several lines: each
/// backslash that is followed by a line feed is left out together with the
/// line feed.
pub fn join_continued_lines(input: &str) -> (joined: String)
    ensures
        joined@ == without_continuations(input@),
{
    let chars = chars_of(input);
    let n = chars.len();
    let mut joined = String::new();
    let mut start: usize = 0;
    let mut i: usize = 0;
    proof {
        assert(chars@.skip(0) =~= chars@);
        assert(joined@ + chars@.subrange(0, 0) + without_continuations(chars@.skip(0))
            =~= without_continuations(chars@));
    }
    while i < n
        invariant
            start <= i <= n,
            n == chars@.len(),
            chars@ == input@,
            joined@ + chars@.subrange(start as int, i as int) + without_continuations(
                chars@.skip(i as int),
            ) == without_continuations(chars@),
        decreases n - i,
    {
        let ghost ahead = chars@.skip(i as int);
        let ghost kept = joined@;
        assert(ahead[0] == chars@[i as int]);
        if i + 1 < n && chars[i] == '\\' && chars[i + 1] == '\n' {
            assert(ahead[1] == chars@[i + 1]);
            assert(ahead.skip(2) =~= chars@.skip(i + 2));
            joined.append(input.substring_char(start, i));
            assert(joined@ + chars@.subrange(i + 2, i + 2) + without_continuations(
                chars@.skip(i + 2),
            ) =~= kept + chars@.subrange(start as int, i as int) + without_continuations(ahead));
            start = i + 2;
            i += 2;
        } else {
            proof {
                if i + 1 < n {
                    assert(ahead[1] == chars@[i + 1]);
                    assert(ahead.skip(1) =~= chars@.skip(i + 1));
                } else {
                    assert(chars@.skip(i + 1) =~= Seq::<char>::empty());
                    assert(ahead =~= seq![ahead[0]] + without_continuations(chars@.skip(i + 1)));
                }
                assert(kept + chars@.subrange(start as int, i + 1) + without_continuations(
                    chars@.skip(i + 1),
                ) =~= kept + chars@.subrange(start as int, i as int) + without_continuations(ahead));
            }
            i += 1;
        }
    }
    let ghost kept = joined@;
    joined.append(input.substring_char(start, n));
    assert(chars@.skip(n as int) =~= Seq::<char>::empty());
    assert(joined@ =~= kept + chars@.subrange(start as int, n as int) + without_continuations(
        chars@.skip(n as int),
    ));
    joined
}

/// The text of `line` in front of byte `pos`, if a character begins there or
/// the line ends there.
pub open spec fn text_before(line: Seq<char>, pos: int) -> Option<Seq<char>> {
    let bytes = vstd::utf8::encode_utf8(line);
    if vstd::utf8::is_char_boundary(bytes, pos) {
        Some(vstd::utf8::decode_utf8(bytes.subrange(0, pos)))
    } else {
        None
    }
}

/// What is left of each name that begins with `prefix` when the prefix is
/// taken off, in the order of the names.
pub open spec fn completions_of(names: Seq<Seq<char>>, prefix: Seq<char>) -> Seq<Seq<char>>
    decreases names.len(),
{
    if names.len() == 0 {
        Seq::empty()
    } else {
        let before = completions_of(names.drop_last(), prefix);
        if prefix.is_prefix_of(names.last()) {
            before.push(names.last().skip(prefix.len() as int))
        } else {
            before
        }
    }
}

/// The texts offered for a line that did not lead to a leaf: the names that
/// could come next, each without what was typed of it. Where nothing of the
/// next name was typed, a space is offered alone while the line is not empty
/// and does not end in one.
pub open spec fn names_offered(
    partial: Seq<char>,
    remaining: Seq<Seq<char>>,
    possibilities: Seq<Seq<char>>,
) -> Seq<Seq<char>> {
    if remaining.len() > 0 {
        completions_of(possibilities, remaining[0])
    } else if partial.len() > 0 && !crate::tokenizer::ends_in_space(partial) {
        seq![" "@]
    } else {
        completions_of(possibilities, Seq::empty())
    }
}

/// The texts offered when `partial` was typed and resolved to `outcome`.
///
/// For a line that led to a leaf the leaf's own answer decides: nothing, its
/// endings for the argument that was begun, or its next arguments, before
/// which a space is offered alone while the line does not end in one.
///
/// For any other line the names that could come next are offered, as
/// `names_offered` says.
pub open spec fn candidate_texts(partial: Seq<char>, outcome: Outcome) -> Seq<Seq<char>> {
    if outcome.complete {
        match outcome.leaf_completion {
            None => Seq::empty(),
            Some(Completion::Nothing) => Seq::empty(),
            Some(Completion::PartialArgCompletion(endings)) => endings.deep_view(),
            Some(Completion::Possibilities(nexts)) => if !crate::tokenizer::ends_in_space(partial) {
                seq![" "@]
            } else {
                nexts.deep_view()
            },
        }
    } else {
        names_offered(partial, outcome.remaining.deep_view(), outcome.possibilities.deep_view())
    }
}

/// A space comes first: where a line that is not empty and does not end in
/// a space resolved in full to a parent, with nothing left over, the only
/// candidate is a space, whatever names could come next.
pub proof fn lemma_space_before_names(partial: Seq<char>, outcome: Outcome)
    requires
        !outcome.complete,
        outcome.remaining@.len() == 0,
        partial.len() > 0,
        !crate::tokenizer::ends_in_space(partial),
    ensures
        candidate_texts(partial, outcome) == seq![" "@],
{
}

/// Behind a space, or on an empty line, all names that could come next are
/// offered in full, in their order.
pub proof fn lemma_names_behind_space(partial: Seq<char>, outcome: Outcome)
    requires
        !outcome.complete,
        outcome.remaining@.len() == 0,
        partial.len() == 0 || crate::tokenizer::ends_in_space(partial),
    ensures
        candidate_texts(partial, outcome) == outcome.possibilities.deep_view(),
{
    lemma_completions_of_nothing(outcome.possibilities.deep_view());
}

/// With nothing typed of a name, every name is offered in full.
pub proof fn lemma_completions_of_nothing(names: Seq<Seq<char>>)
    ensures
        completions_of(names, Seq::empty()) == names,
    decreases names.len(),
{
    if names.len() > 0 {
        lemma_completions_of_nothing(names.drop_last());
        assert(Seq::<char>::empty().is_prefix_of(names.last()));
        assert(names.last().skip(0) =~= names.last());
        assert(names.drop_last().push(names.last()) =~= names);
    }
}

/// The candidates that list and insert the given texts.
pub open spec fn pairs_of(texts: Seq<Seq<char>>, pairs: Seq<Pair>) -> bool {
    &&& pairs.len() == texts.len()
    &&& forall|i: int|
        0 <= i < pairs.len() ==> (#[trigger] pairs[i]).display@ == texts[i] && pairs[i].replacement@
            == texts[i]
}

/// The part of `line` in front of byte `pos`, if a character begins there or
/// the line ends there.
pub fn prefix_at<'a>(line: &'a str, pos: usize) -> (r: Option<&'a str>)
    ensures
        match r {
            Some(partial) => text_before(line@, pos as int) == Some(partial@),
            None => text_before(line@, pos as int) is None,
        },
{
    if line.is_char_boundary(pos) {
        let (partial, _) = line.split_at(pos);
        proof {
            vstd::utf8::encode_utf8_decode_utf8(partial@);
        }
        Some(partial)
    } else {
        None
    }
}

/// One candidate for each text.
fn as_pairs(texts: &Vec<String>) -> (pairs: Vec<Pair>)
    ensures
        pairs_of(texts.deep_view(), pairs@),
{
    let mut pairs: Vec<Pair> = Vec::new();
    let mut i: usize = 0;
    while i < texts.len()
        invariant
            i <= texts@.len(),
            pairs_of(texts.deep_view().take(i as int), pairs@),
        decreases texts@.len() - i,
    {
        pairs.push(Pair { display: texts[i].clone(), replacement: texts[i].clone() });
        i += 1;
    }
    assert(texts.deep_view().take(texts@.len() as int) =~= texts.deep_view());
    pairs
}

/// A single candidate that inserts a space.
fn space_pair() -> (pairs: Vec<Pair>)
    ensures
        pairs_of(seq![" "@], pairs@),
{
    let mut pairs: Vec<Pair> = Vec::new();
    pairs.push(Pair { display: String::from_str(" "), replacement: String::from_str(" ") });
    pairs
}

/// What is left of each name that begins with `prefix`, as candidates.
fn matching(names: &Vec<String>, prefix: &str) -> (pairs: Vec<Pair>)
    ensures
        pairs_of(completions_of(names.deep_view(), prefix@), pairs@),
{
    let mut pairs: Vec<Pair> = Vec::new();
    let skip = prefix.unicode_len();
    let ghost all = names.deep_view();
    let mut i: usize = 0;
    assert(all.take(0) =~= Seq::<Seq<char>>::empty());
    while i < names.len()
        invariant
            i <= names@.len(),
            all == names.deep_view(),
            skip == prefix@.len(),
            pairs_of(completions_of(all.take(i as int), prefix@), pairs@),
        decreases names@.len() - i,
    {
        let name = names[i].as_str();
        proof {
            let next = all.take(i + 1);
            assert(next.drop_last() =~= all.take(i as int));
            assert(next.last() == name@);
        }
        if starts_with(name, prefix) {
            let ending = name.substring_char(skip, name.unicode_len());
            assert(ending@ =~= name@.skip(skip as int));
            pairs.push(
                Pair { display: String::from_str(ending), replacement: String::from_str(ending) },
            );
        }
        i += 1;
    }
    assert(all.take(names@.len() as int) =~= all);
    pairs
}

/// The candidates offered when `partial` was typed and resolved to
/// `outcome`.
pub fn candidates(partial: &str, outcome: &Outcome) -> (pairs: Vec<Pair>)
    ensures
        pairs_of(candidate_texts(partial@, *outcome), pairs@),
{
    let chars = chars_of(partial);
    let ends_with_space = chars.len() > 0 && chars[chars.len() - 1] == ' ';
    if outcome.complete {
        match &outcome.leaf_completion {
            None => Vec::new(),
            Some(Completion::Nothing) => Vec::new(),
            Some(Completion::PartialArgCompletion(arg_suffixes)) => as_pairs(arg_suffixes),
            Some(Completion::Possibilities(possibilities)) => {
                if !ends_with_space {
                    return space_pair();
                }
                as_pairs(possibilities)
            },
        }
    } else if outcome.remaining.len() > 0 {
        matching(&outcome.possibilities, outcome.remaining[0])
    } else if chars.len() > 0 && !ends_with_space {
        space_pair()
    } else {
        proof {
            reveal_strlit("");
        }
        matching(&outcome.possibilities, "")
    }
}

impl<'b, 'a, S, B> ExecCompleter<'b, 'a, S, B> {
    /// A completer over the given custom commands and builtins.
    pub fn new(parser: Parser, cmds: &'b CommandSet<'a, S>, builtins: &'b CommandSet<'a, B>) -> (c:
        Self)
        ensures
            c.quotes() == parser.quotes(),
            c.custom() == *cmds,
            c.builtin() == *builtins,
    {
        ExecCompleter { parser, cmds, builtins }
    }

    /// The characters that the completer takes for quotation marks.
    pub closed spec fn quotes(&self) -> Seq<char> {
        self.parser.quotes()
    }

    /// The custom commands.
    pub closed spec fn custom(&self) -> CommandSet<'a, S> {
        *self.cmds
    }

    /// The builtins.
    pub closed spec fn builtin(&self) -> CommandSet<'a, B> {
        *self.builtins
    }

    /// The tokens of `partial`.
    pub open spec fn tokens(&self, partial: Seq<char>) -> Seq<Seq<char>> {
        crate::tokenizer::tokens_of(partial, self.quotes())
    }

    /// How `partial` resolves in the two sets.
    pub open spec fn resolution(&self, partial: Seq<char>) -> crate::parser::Resolution {
        crate::parser::resolve_both(self.tokens(partial), self.custom(), self.builtin()).0
    }

    /// The texts offered for `partial` where it does not lead to a leaf.
    pub open spec fn names_for(&self, partial: Seq<char>) -> Seq<Seq<char>> {
        names_offered(
            partial,
            self.tokens(partial).skip(self.resolution(partial).matched),
            self.resolution(partial).possibilities,
        )
    }

    /// Whether `outcome` reports how `partial` resolves in the two sets.
    pub open spec fn resolves_to(&self, partial: Seq<char>, outcome: Outcome) -> bool {
        let tokens = crate::tokenizer::tokens_of(partial, self.quotes());
        let both = crate::parser::resolve_both(tokens, self.custom(), self.builtin());
        crate::parser::reports(outcome, tokens, both.0, both.1)
    }

    /// Whether `pairs` are the candidates for `partial` where it resolves to
    /// `outcome`.
    pub open spec fn offers(&self, partial: Seq<char>, outcome: Outcome, pairs: Seq<Pair>) -> bool {
        &&& self.resolves_to(partial, outcome)
        &&& pairs_of(candidate_texts(partial, outcome), pairs)
    }

    /// Candidates for completing `line` at byte `pos`. Only the part of the
    /// line in front of `pos` counts. The candidates are to be inserted at
    /// `pos`, which is handed back; where `pos` does not lie between two
    /// characters of the line, nothing is offered, at place 0.
    pub fn complete(&self, line: &str, pos: usize) -> (r: (usize, Vec<Pair>))
        ensures
            text_before(line@, pos as int) is None ==> r.0 == 0 && r.1@.len() == 0,
            text_before(line@, pos as int) is Some ==> r.0 == pos,
            text_before(line@, pos as int) is Some ==> exists|outcome: Outcome|
                #[trigger] self.offers(text_before(line@, pos as int)->0, outcome, r.1@),
            text_before(line@, pos as int) is Some && !self.resolution(
                text_before(line@, pos as int)->0,
            ).complete ==> pairs_of(self.names_for(text_before(line@, pos as int)->0), r.1@),
    {
        let partial = match prefix_at(line, pos) {
            Some(p) => p,
            None => {
                return (0, Vec::new());
            },
        };
        let outcome = self.parser.parse(partial, self.cmds, self.builtins);
        let pairs = candidates(partial, &outcome);
        let r = (pos, pairs);
        assert(self.offers(text_before(line@, pos as int)->0, outcome, r.1@));
        assert(exists|o: Outcome| #[trigger] self.offers(text_before(line@, pos as int)->0, o, r.1@));
        r
    }
}

} // verus!
