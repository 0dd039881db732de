//! The hierarchical topic model: an ordered sequence of levels, each either
//! an exact token or a single-level wildcard, plus a flag that asks for a
//! trailing remainder match at subscribe time.

use vstd::prelude::*;

verus! {

/// One level of a topic: a literal token, or a wildcard matching exactly one
/// arbitrary level (a subscription-only concept).
#[derive(Clone, Debug)]
pub enum TopicLevel {
    Exact(String),
    WildCard,
}

/// The mathematical value of a [`TopicLevel`]: the token as a character
/// sequence, or the wildcard marker.
pub enum LevelView {
    Exact(Seq<char>),
    Wildcard,
}

impl View for TopicLevel {
    type V = LevelView;

    open spec fn view(&self) -> LevelView {
        match self {
            TopicLevel::Exact(s) => LevelView::Exact(s@),
            TopicLevel::WildCard => LevelView::Wildcard,
        }
    }
}

impl DeepView for TopicLevel {
    type V = LevelView;

    open spec fn deep_view(&self) -> LevelView {
        self.view()
    }
}

impl PartialEq for TopicLevel {
    fn eq(&self, other: &TopicLevel) -> (r: bool) {
        match (self, other) {
            (TopicLevel::Exact(a), TopicLevel::Exact(b)) => *a == *b,
            (TopicLevel::WildCard, TopicLevel::WildCard) => true,
            _ => false,
        }
    }
}

impl vstd::std_specs::cmp::PartialEqSpecImpl for TopicLevel {
    open spec fn obeys_eq_spec() -> bool {
        true
    }

    open spec fn eq_spec(&self, other: &TopicLevel) -> bool {
        self@ == other@
    }
}

/// A hierarchical message address: anything that can report whether it asks
/// for a trailing remainder match and hand out its levels in order.
pub trait Topic {
    /// The levels of this topic, in order.
    spec fn levels(&self) -> Seq<LevelView>;

    /// Whether this topic also matches any remaining suffix levels.
    spec fn prefix(&self) -> bool;

    fn prefix_match(&self) -> (b: bool)
        ensures
            b == self.prefix(),
    ;

    fn level_count(&self) -> (n: usize)
        ensures
            n == self.levels().len(),
    ;

    fn level_at(&self, i: usize) -> (l: &TopicLevel)
        requires
            i < self.levels().len(),
        ensures
            l@ == self.levels()[i as int],
    ;
}

/// A concrete, owned topic: a vector of levels and the remainder-match flag.
pub struct TopicPath {
    levels: Vec<TopicLevel>,
    prefix_match: bool,
}

impl TopicPath {
    pub fn new(levels: Vec<TopicLevel>, prefix_match: bool) -> (t: TopicPath)
        ensures
            t.levels() == levels.deep_view(),
            t.prefix() == prefix_match,
    {
        TopicPath { levels, prefix_match }
    }
}

impl Topic for TopicPath {
    closed spec fn levels(&self) -> Seq<LevelView> {
        self.levels.deep_view()
    }

    closed spec fn prefix(&self) -> bool {
        self.prefix_match
    }

    fn prefix_match(&self) -> bool {
        self.prefix_match
    }

    fn level_count(&self) -> usize {
        self.levels.len()
    }

    fn level_at(&self, i: usize) -> &TopicLevel {
        &self.levels[i]
    }
}

} // verus!
