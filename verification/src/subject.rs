//! The subject codec: bidirectional, pure translation between a topic and a
//! broker subject string. Levels are joined by `.`, a wildcard level is
//! written `*`, and a remainder match ends the subject in `>` in place of a
//! final delimiter.

use vstd::prelude::*;
use vstd::string::StrSliceExecFns;
use vstd::string::StringExecFns;

use crate::errors::TopicError;
use crate::topic::{LevelView, Topic, TopicLevel};

verus! {

/// The characters one level contributes to a subject: the token itself for
/// an exact level, the single-level wildcard marker otherwise.
pub open spec fn level_chars(l: LevelView) -> Seq<char> {
    match l {
        LevelView::Exact(t) => t,
        LevelView::Wildcard => seq!['*'],
    }
}

/// The levels joined by the delimiter, with no trailing delimiter.
pub open spec fn join_levels(levels: Seq<LevelView>) -> Seq<char>
    decreases levels.len(),
{
    if levels.len() == 0 {
        Seq::empty()
    } else if levels.len() == 1 {
        level_chars(levels[0])
    } else {
        level_chars(levels[0]) + seq!['.'] + join_levels(levels.skip(1))
    }
}

/// The full wire subject of a topic: the levels joined by the delimiter,
/// and, for a remainder match, a trailing `>` behind one more delimiter.
pub open spec fn subject_chars(levels: Seq<LevelView>, prefix_match: bool) -> Seq<char> {
    if prefix_match {
        join_levels(levels) + seq!['.', '>']
    } else {
        join_levels(levels)
    }
}

/// An exact token the codec accepts: non-empty and free of the delimiter.
pub open spec fn token_ok(t: Seq<char>) -> bool {
    t.len() > 0 && forall|i: int| 0 <= i < t.len() ==> t[i] != '.'
}

pub open spec fn level_ok(l: LevelView) -> bool {
    match l {
        LevelView::Exact(t) => token_ok(t),
        LevelView::Wildcard => true,
    }
}

/// A topic the codec can encode: at least one level, and every exact token
/// non-empty and delimiter-free.
pub open spec fn topic_encodable(levels: Seq<LevelView>) -> bool {
    levels.len() > 0 && forall|i: int| 0 <= i < levels.len() ==> level_ok(#[trigger] levels[i])
}

/// The error the encoder reports, pinned down exactly: an empty topic, or
/// else the first offending level decides between an empty token and a token
/// holding the delimiter.
pub open spec fn topic_encode_error(levels: Seq<LevelView>, e: TopicError) -> bool {
    if levels.len() == 0 {
        e == TopicError::EmptyTopic
    } else {
        exists|i: int|
            0 <= i < levels.len() && !level_ok(#[trigger] levels[i]) && (forall|j: int|
                0 <= j < i ==> level_ok(#[trigger] levels[j])) && (match levels[i] {
                LevelView::Exact(t) => e == (if t.len() == 0 {
                    TopicError::EmptyToken
                } else {
                    TopicError::DelimiterInToken
                }),
                LevelView::Wildcard => false,
            })
    }
}

/// Splitting a subject on the delimiter, exactly as string splitting does:
/// there is always at least one (possibly empty) token.
pub open spec fn split_subject(s: Seq<char>) -> Seq<Seq<char>>
    decreases s.len(),
{
    if s.len() == 0 {
        seq![s]
    } else if s[0] == '.' {
        seq![Seq::<char>::empty()] + split_subject(s.skip(1))
    } else {
        let rest = split_subject(s.skip(1));
        seq![seq![s[0]] + rest[0]] + rest.skip(1)
    }
}

/// The level a single subject token denotes: the wildcard marker parses to a
/// wildcard, every other token to an exact level.
pub open spec fn level_of_token(t: Seq<char>) -> LevelView {
    if t == seq!['*'] {
        LevelView::Wildcard
    } else {
        LevelView::Exact(t)
    }
}

/// The levels a sequence of split tokens denotes.
pub open spec fn parse_tokens(toks: Seq<Seq<char>>) -> Seq<LevelView> {
    toks.map_values(|t: Seq<char>| level_of_token(t))
}

/// The topic recovered from a delivered subject.
pub open spec fn parse_subject(s: Seq<char>) -> Seq<LevelView> {
    parse_tokens(split_subject(s))
}

/// A delimiter-free piece splits to just itself.
proof fn lemma_split_no_delim(t: Seq<char>)
    requires
        forall|i: int| 0 <= i < t.len() ==> t[i] != '.',
    ensures
        split_subject(t) == seq![t],
    decreases t.len(),
{
    if t.len() == 0 {
    } else {
        lemma_split_no_delim(t.skip(1));
        assert(seq![t[0]] + t.skip(1) =~= t);
        assert(split_subject(t) =~~= seq![t]);
    }
}

/// Peeling a delimiter-free token and one delimiter off the front of a
/// subject peels the first split piece.
proof fn lemma_split_prepend_token(t: Seq<char>, rest: Seq<char>)
    requires
        forall|i: int| 0 <= i < t.len() ==> t[i] != '.',
    ensures
        split_subject(t + seq!['.'] + rest) == seq![t] + split_subject(rest),
    decreases t.len(),
{
    let s = t + seq!['.'] + rest;
    if t.len() == 0 {
        assert(s =~= seq!['.'] + rest);
        assert(s[0] == '.');
        assert(s.skip(1) =~= rest);
        assert(split_subject(s) =~~= seq![t] + split_subject(rest));
    } else {
        assert(s[0] == t[0]);
        assert(s.skip(1) =~= t.skip(1) + seq!['.'] + rest);
        lemma_split_prepend_token(t.skip(1), rest);
        let r = split_subject(s.skip(1));
        assert(r == seq![t.skip(1)] + split_subject(rest));
        assert(r[0] == t.skip(1));
        assert(seq![s[0]] + r[0] =~= t);
        assert(r.skip(1) =~= split_subject(rest));
        assert(split_subject(s) =~~= seq![t] + split_subject(rest));
    }
}

/// Appending one level to a non-empty join appends one delimiter and the
/// level's characters.
proof fn lemma_join_push(levels: Seq<LevelView>, l: LevelView)
    ensures
        join_levels(levels.push(l)) == if levels.len() == 0 {
            level_chars(l)
        } else {
            join_levels(levels) + seq!['.'] + level_chars(l)
        },
    decreases levels.len(),
{
    let p = levels.push(l);
    if levels.len() == 0 {
        assert(p.len() == 1 && p[0] == l);
    } else {
        lemma_join_push(levels.skip(1), l);
        assert(p.skip(1) =~= levels.skip(1).push(l));
        assert(p[0] == levels[0]);
        assert(join_levels(p) =~= join_levels(levels) + seq!['.'] + level_chars(l));
    }
}

/// Traverses a topic's levels in order and builds its wire subject: tokens
/// joined by the delimiter, `*` for a wildcard, and a trailing `>` for a
/// remainder match. A structurally invalid topic — empty, or holding an
/// empty or delimiter-bearing exact token — is rejected rather than encoded
/// into a malformed subject.
pub fn topic_to_subject<T: Topic>(topic: &T) -> (r: Result<String, TopicError>)
    ensures
        r is Ok <==> topic_encodable(topic.levels()),
        r matches Ok(s) ==> s@ == subject_chars(topic.levels(), topic.prefix()),
        r matches Err(e) ==> topic_encode_error(topic.levels(), e),
{
    let ghost lvls = topic.levels();
    let n = topic.level_count();
    if n == 0 {
        return Err(TopicError::EmptyTopic);
    }
    let mut subject = String::new();
    let mut i: usize = 0;
    while i < n
        invariant
            0 <= i <= n,
            n == lvls.len(),
            lvls == topic.levels(),
            forall|j: int| 0 <= j < i ==> level_ok(#[trigger] lvls[j]),
            subject@ == join_levels(lvls.take(i as int)),
        decreases n - i,
    {
        proof {
            reveal_strlit(".");
            reveal_strlit("*");
        }
        let l = topic.level_at(i);
        if i > 0 {
            subject.append(".");
        }
        match l {
            TopicLevel::Exact(tok) => {
                let tlen = tok.as_str().unicode_len();
                if tlen == 0 {
                    proof {
                        assert(lvls[i as int] == LevelView::Exact(tok@));
                        assert(!level_ok(lvls[i as int]));
                        assert(forall|j: int| 0 <= j < i as int ==> level_ok(#[trigger] lvls[j]));
                        assert(topic_encode_error(lvls, TopicError::EmptyToken));
                    }
                    return Err(TopicError::EmptyToken);
                }
                let mut j: usize = 0;
                while j < tlen
                    invariant
                        0 <= j <= tlen,
                        tlen == tok@.len(),
                        tlen > 0,
                        0 <= i < lvls.len(),
                        lvls == topic.levels(),
                        lvls[i as int] == LevelView::Exact(tok@),
                        forall|k: int| 0 <= k < i ==> level_ok(#[trigger] lvls[k]),
                        forall|k: int| 0 <= k < j ==> tok@[k] != '.',
                    decreases tlen - j,
                {
                    if tok.as_str().get_char(j) == '.' {
                        proof {
                            assert(tok@[j as int] == '.');
                            assert(!token_ok(tok@));
                            assert(lvls[i as int] == LevelView::Exact(tok@));
                            assert(!level_ok(lvls[i as int]));
                            assert(forall|k: int|
                                0 <= k < i as int ==> level_ok(#[trigger] lvls[k]));
                            assert(topic_encode_error(lvls, TopicError::DelimiterInToken));
                        }
                        return Err(TopicError::DelimiterInToken);
                    }
                    j = j + 1;
                }
                subject.append(tok.as_str());
            },
            TopicLevel::WildCard => {
                subject.append("*");
            },
        }
        proof {
            assert(lvls.take(i + 1) =~= lvls.take(i as int).push(lvls[i as int]));
            lemma_join_push(lvls.take(i as int), lvls[i as int]);
            assert("."@ =~= seq!['.']);
            assert("*"@ =~= seq!['*']);
            assert(subject@ =~= join_levels(lvls.take(i + 1)));
        }
        i = i + 1;
    }
    proof {
        assert(lvls.take(n as int) =~= lvls);
    }
    if topic.prefix_match() {
        subject.append(".>");
        proof {
            reveal_strlit(".>");
            assert(subject@ =~= subject_chars(lvls, true));
        }
        Ok(subject)
    } else {
        Ok(subject)
    }
}

/// A level that parsing maps back to itself: a wildcard, or an exact token
/// that is non-empty, delimiter-free and does not itself read as the
/// wildcard marker.
pub open spec fn level_parseable(l: LevelView) -> bool {
    match l {
        LevelView::Exact(t) => token_ok(t) && !(t.len() == 1 && t[0] == '*'),
        LevelView::Wildcard => true,
    }
}

/// Parsing the characters of a parseable level yields that level back.
proof fn lemma_level_token_inverse(l: LevelView)
    requires
        level_parseable(l),
    ensures
        level_of_token(level_chars(l)) == l,
{
    match l {
        LevelView::Exact(t) => {
            if t == seq!['*'] {
                assert(t.len() == 1 && t[0] == '*');
            }
        },
        LevelView::Wildcard => {},
    }
}

/// Round-trip law: a topic built only from wildcards and non-empty,
/// delimiter-free exact tokens (none reading as the wildcard marker itself)
/// encodes to a subject that parses back to exactly the same level
/// sequence. A remainder-match topic encodes to a subject ending in `>`;
/// parsing never reports a remainder match, because a delivered subject is
/// always a concrete leaf, so the flag is not recovered.
pub proof fn lemma_subject_round_trip(levels: Seq<LevelView>, prefix_match: bool)
    requires
        levels.len() > 0,
        forall|i: int| 0 <= i < levels.len() ==> level_parseable(#[trigger] levels[i]),
    ensures
        parse_subject(subject_chars(levels, false)) == levels,
        prefix_match ==> subject_chars(levels, prefix_match).last() == '>',
    decreases levels.len(),
{
    lemma_level_token_inverse(levels[0]);
    let head = level_chars(levels[0]);
    assert(forall|i: int| 0 <= i < head.len() ==> head[i] != '.') by {
        match levels[0] {
            LevelView::Exact(t) => {},
            LevelView::Wildcard => {},
        }
    }
    if levels.len() == 1 {
        lemma_split_no_delim(head);
        assert(parse_subject(subject_chars(levels, false)) =~= levels);
    } else {
        let rest = levels.skip(1);
        lemma_subject_round_trip(rest, false);
        lemma_split_prepend_token(head, join_levels(rest));
        assert(join_levels(levels) == head + seq!['.'] + join_levels(rest));
        let y = split_subject(join_levels(rest));
        assert(split_subject(join_levels(levels)) == seq![head] + y);
        assert(parse_tokens(y) == rest);
        assert forall|k: int| 0 <= k < (seq![head] + y).len() implies parse_tokens(
            seq![head] + y,
        )[k] == levels[k] by {
            if k == 0 {
                assert((seq![head] + y)[0] == head);
            } else {
                assert((seq![head] + y)[k] == y[k - 1]);
                assert(parse_tokens(y)[k - 1] == level_of_token(y[k - 1]));
                assert(rest[k - 1] == levels[k]);
            }
        }
        assert(parse_subject(subject_chars(levels, false)) =~= levels);
    }
    if prefix_match {
        assert(subject_chars(levels, true).last() == '>');
    }
}

/// The iterator handed out by [`subject_to_topic`]: the parsed levels of a
/// delivered subject, consumed front to back. A parsed topic never reports
/// a remainder match: a delivered subject is always a concrete leaf.
#[derive(Debug)]
pub struct SubjectIter {
    levels: Vec<TopicLevel>,
}

impl SubjectIter {
    /// Hands out the next level, consuming it.
    pub fn next(&mut self) -> (l: Option<TopicLevel>)
        ensures
            match l {
                Some(level) => old(self).levels().len() > 0 && level@ == old(self).levels()[0]
                    && final(self).levels() == old(self).levels().skip(1),
                None => old(self).levels().len() == 0 && final(self).levels() == old(
                    self,
                ).levels(),
            },
    {
        if self.levels.len() == 0 {
            None
        } else {
            let level = self.levels.remove(0);
            proof {
                assert(self.levels.deep_view() =~= old(self).levels.deep_view().skip(1));
            }
            Some(level)
        }
    }

    /// The remaining levels, in order, as a vector.
    pub fn collect_levels(self) -> (v: Vec<TopicLevel>)
        ensures
            v.deep_view() == self.levels(),
    {
        self.levels
    }
}

impl Topic for SubjectIter {
    closed spec fn levels(&self) -> Seq<LevelView> {
        self.levels.deep_view()
    }

    closed spec fn prefix(&self) -> bool {
        false
    }

    fn prefix_match(&self) -> bool {
        false
    }

    fn level_count(&self) -> usize {
        self.levels.len()
    }

    fn level_at(&self, i: usize) -> &TopicLevel {
        &self.levels[i]
    }
}

/// The level a single subject token denotes, as a value: `*` parses to the
/// wildcard, every other token to an exact level.
pub fn topic_level(level: &str) -> (l: TopicLevel)
    ensures
        l@ == level_of_token(level@),
{
    let n = level.unicode_len();
    if n == 1 && level.get_char(0) == '*' {
        proof {
            assert(level@ =~= seq!['*']);
        }
        TopicLevel::WildCard
    } else {
        proof {
            if level@ == seq!['*'] {
                assert(level@.len() == 1 && level@[0] == '*');
                assert(false);
            }
        }
        TopicLevel::Exact(level.to_owned())
    }
}

/// Splits a delivered subject on the delimiter and recovers its topic. Each
/// `*` token becomes a wildcard, every other token an exact level; the
/// result never reports a remainder match.
pub fn subject_to_topic(subject: &str) -> (it: SubjectIter)
    ensures
        it.levels() == parse_subject(subject@),
        it.prefix() == false,
{
    let ghost s = subject@;
    let n = subject.unicode_len();
    let mut levels: Vec<TopicLevel> = Vec::new();
    let mut start: usize = 0;
    let ghost mut toks: Seq<Seq<char>> = Seq::empty();
    proof {
        assert(s.skip(0) =~= s);
        assert(toks + split_subject(s) =~~= split_subject(s));
    }
    let mut i: usize = 0;
    while i < n
        invariant
            start <= i <= n,
            n == s.len(),
            s == subject@,
            forall|j: int| start <= j < i ==> s[j] != '.',
            split_subject(s) == toks + split_subject(s.skip(start as int)),
            levels.deep_view() == parse_tokens(toks),
        decreases n - i,
    {
        if subject.get_char(i) == '.' {
            let tok = subject.substring_char(start, i);
            levels.push(topic_level(tok));
            proof {
                assert(tok@ == s.subrange(start as int, i as int));
                assert(s.skip(start as int) =~= tok@ + seq!['.'] + s.skip(i as int + 1));
                lemma_split_prepend_token(tok@, s.skip(i as int + 1));
                let t0 = toks;
                toks = toks.push(tok@);
                assert(t0 + (seq![tok@] + split_subject(s.skip(i as int + 1))) =~~= toks
                    + split_subject(s.skip(i as int + 1)));
                assert(parse_tokens(toks) =~= parse_tokens(t0).push(level_of_token(tok@)));
                assert(levels.deep_view() =~= parse_tokens(toks));
            }
            start = i + 1;
        }
        i = i + 1;
    }
    let tok = subject.substring_char(start, n);
    levels.push(topic_level(tok));
    proof {
        assert(tok@ == s.subrange(start as int, n as int));
        assert(s.skip(start as int) =~= tok@);
        lemma_split_no_delim(tok@);
        let t0 = toks;
        toks = toks.push(tok@);
        assert(t0 + seq![tok@] =~~= toks);
        assert(split_subject(s) == toks);
        assert(parse_tokens(toks) =~= parse_tokens(t0).push(level_of_token(tok@)));
        assert(levels.deep_view() =~= parse_tokens(toks));
        assert(levels.deep_view() == parse_subject(s));
    }
    SubjectIter { levels }
}

} // verus!
