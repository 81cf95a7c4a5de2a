//! Word pairs, and the list a fresh store starts with.

use vstd::prelude::*;

verus! {

/// One English term and its Chinese translation, keyed by the English term.
#[derive(Debug, Clone, PartialEq, Eq)]
pub struct WordPair {
    pub english: String,
    pub chinese: String,
}

impl View for WordPair {
    type V = (Seq<char>, Seq<char>);

    open spec fn view(&self) -> (Seq<char>, Seq<char>) {
        (self.english@, self.chinese@)
    }
}

/// The pairs of a sequence of words, in the same order.
pub open spec fn pairs_of(words: Seq<WordPair>) -> Seq<(Seq<char>, Seq<char>)> {
    Seq::new(words.len(), |i: int| words[i]@)
}

impl WordPair {
    pub fn new(english: &str, chinese: &str) -> (pair: WordPair)
        ensures
            pair@ == (english@, chinese@),
    {
        WordPair { english: english.to_owned(), chinese: chinese.to_owned() }
    }
}

/// How many pairs a fresh store is given.
pub const SEED_COUNT: usize = 10;

/// The pairs a fresh store is given, in the order in which they are inserted.
pub open spec fn seed_pairs() -> Seq<(Seq<char>, Seq<char>)> {
    seq![
        ("hello"@, "你好"@),
        ("world"@, "世界"@),
        ("apple"@, "苹果"@),
        ("banana"@, "香蕉"@),
        ("cat"@, "猫"@),
        ("dog"@, "狗"@),
        ("book"@, "书"@),
        ("computer"@, "电脑"@),
        ("sun"@, "太阳"@),
        ("moon"@, "月亮"@),
    ]
}

/// The seed pair at `index`.
pub(crate) fn seed_word(index: usize) -> (pair: WordPair)
    requires
        index < SEED_COUNT,
    ensures
        pair@ == seed_pairs()[index as int],
{
    if index == 0 {
        WordPair::new("hello", "你好")
    } else if index == 1 {
        WordPair::new("world", "世界")
    } else if index == 2 {
        WordPair::new("apple", "苹果")
    } else if index == 3 {
        WordPair::new("banana", "香蕉")
    } else if index == 4 {
        WordPair::new("cat", "猫")
    } else if index == 5 {
        WordPair::new("dog", "狗")
    } else if index == 6 {
        WordPair::new("book", "书")
    } else if index == 7 {
        WordPair::new("computer", "电脑")
    } else if index == 8 {
        WordPair::new("sun", "太阳")
    } else {
        WordPair::new("moon", "月亮")
    }
}

/// All seed pairs, in insertion order.
pub fn seed_words() -> (words: Vec<WordPair>)
    ensures
        pairs_of(words@) == seed_pairs(),
{
    let mut words: Vec<WordPair> = Vec::new();
    let mut index: usize = 0;
    while index < SEED_COUNT
        invariant
            index <= SEED_COUNT,
            words.len() == index,
            forall|i: int| 0 <= i < index ==> (#[trigger] words[i])@ == seed_pairs()[i],
        decreases SEED_COUNT - index,
    {
        words.push(seed_word(index));
        index += 1;
    }
    assert(pairs_of(words@) =~= seed_pairs());
    words
}

/// No two seed pairs share their English term.
pub proof fn lemma_seed_keys_distinct()
    ensures
        seed_pairs().len() == SEED_COUNT,
        forall|i: int, j: int|
            0 <= i < j < seed_pairs().len() ==> seed_pairs()[i].0 != seed_pairs()[j].0,
{
    reveal_strlit("hello");
    reveal_strlit("world");
    reveal_strlit("apple");
    reveal_strlit("banana");
    reveal_strlit("cat");
    reveal_strlit("dog");
    reveal_strlit("book");
    reveal_strlit("computer");
    reveal_strlit("sun");
    reveal_strlit("moon");
    let s = seed_pairs();
    assert forall|i: int, j: int| 0 <= i < j < s.len() implies s[i].0 != s[j].0 by {
        assert(s[i].0.len() != s[j].0.len() || s[i].0[0] != s[j].0[0] || s[i].0[1] != s[j].0[1]);
    }
}

} // verus!
