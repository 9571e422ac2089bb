//! Arms configuration: which arm sides are enabled, and how a joined
//! position vector splits into each enabled side's slice.

use vstd::prelude::*;

verus! {

broadcast use vstd::string::axiom_spec_iter;

/// The number of position elements (7 joints + 1 gripper) each arm side
/// contributes to a joined position vector.
pub const ELEMENTS_PER_ARM: usize = 8;

/// The comma-separated tokens of `s`, exactly as `str::split(',')` yields
/// them: an empty string has one empty token, and separators at either end
/// produce empty tokens.
pub open spec fn split_commas(s: Seq<char>) -> Seq<Seq<char>>
    decreases s.len(),
{
    if s.len() == 0 {
        seq![Seq::<char>::empty()]
    } else {
        let prev = split_commas(s.drop_last());
        if s.last() == ',' {
            prev.push(Seq::<char>::empty())
        } else {
            prev.update(prev.len() - 1, prev.last().push(s.last()))
        }
    }
}

/// The token that enables the right arm.
pub open spec fn right_token() -> Seq<char> {
    seq!['r', 'i', 'g', 'h', 't']
}

/// The token that enables the left arm.
pub open spec fn left_token() -> Seq<char> {
    seq!['l', 'e', 'f', 't']
}

/// `split_commas` never yields an empty list of tokens.
pub proof fn lemma_split_commas_nonempty(s: Seq<char>)
    ensures
        split_commas(s).len() >= 1,
    decreases s.len(),
{
    if s.len() > 0 {
        lemma_split_commas_nonempty(s.drop_last());
    }
}

/// Joining two configuration strings with a comma joins their token lists.
pub proof fn lemma_split_commas_join(a: Seq<char>, b: Seq<char>)
    ensures
        split_commas(a + seq![','] + b) == split_commas(a) + split_commas(b),
    decreases b.len(),
{
    let s = a + seq![','] + b;
    if b.len() == 0 {
        assert(s =~= a.push(','));
        assert(s.drop_last() =~= a);
        assert(split_commas(s) =~= split_commas(a) + split_commas(b));
    } else {
        let b1 = b.drop_last();
        lemma_split_commas_join(a, b1);
        lemma_split_commas_nonempty(b1);
        assert(s.drop_last() =~= a + seq![','] + b1);
        assert(s.last() == b.last());
        let left = split_commas(a);
        let right = split_commas(b1);
        if b.last() == ',' {
            assert(split_commas(s) =~= split_commas(a) + split_commas(b));
        } else {
            let joined = left + right;
            assert(joined.last() == right.last());
            assert(joined.update(joined.len() - 1, joined.last().push(b.last())) =~= left
                + right.update(right.len() - 1, right.last().push(b.last())));
        }
    }
}

/// Joining two arms configurations with a comma enables exactly the arms
/// that either enables.
pub proof fn law_joined_configurations_enable_either(a: Seq<char>, b: Seq<char>)
    ensures
        split_commas(a + seq![','] + b).contains(right_token()) == (split_commas(a).contains(
            right_token(),
        ) || split_commas(b).contains(right_token())),
        split_commas(a + seq![','] + b).contains(left_token()) == (split_commas(a).contains(
            left_token(),
        ) || split_commas(b).contains(left_token())),
{
    lemma_split_commas_join(a, b);
    let ta = split_commas(a);
    let tb = split_commas(b);
    let t = ta + tb;
    assert forall|w: Seq<char>| t.contains(w) == (ta.contains(w) || tb.contains(w)) by {
        if t.contains(w) {
            let i = choose|i: int| 0 <= i < t.len() && t[i] == w;
            if i < ta.len() {
                assert(ta[i] == w);
            } else {
                assert(tb[i - ta.len()] == w);
            }
        }
        if ta.contains(w) {
            let i = choose|i: int| 0 <= i < ta.len() && ta[i] == w;
            assert(t[i] == w);
        }
        if tb.contains(w) {
            let i = choose|i: int| 0 <= i < tb.len() && tb[i] == w;
            assert(t[ta.len() + i] == w);
        }
    }
}

/// Which arm sides are enabled for this node.
///
/// A side is enabled only if the comma-separated configuration string holds
/// a token that is exactly `right` or `left` (no trimming).
#[derive(Debug, Clone, Copy, PartialEq, Eq, Structural)]
pub struct Arms {
    has_right: bool,
    has_left: bool,
}

impl Arms {
    /// Whether the right arm is enabled, as a spec value.
    pub closed spec fn right_enabled(&self) -> bool {
        self.has_right
    }

    /// Whether the left arm is enabled, as a spec value.
    pub closed spec fn left_enabled(&self) -> bool {
        self.has_left
    }

    /// Parses an arms configuration from a comma-separated string, e.g.
    /// `"right,left"`.
    pub fn parse(raw: &str) -> (arms: Self)
        ensures
            arms.right_enabled() == split_commas(raw@).contains(right_token()),
            arms.left_enabled() == split_commas(raw@).contains(left_token()),
    {
        let mut has_right = false;
        let mut has_left = false;
        let mut token: Vec<char> = Vec::new();
        for c in it: raw.chars()
            invariant
                it.seq() == raw@,
                ({
                    let toks = split_commas(raw@.subrange(0, it.index() as int));
                    &&& toks.last() == token@
                    &&& has_right == toks.drop_last().contains(right_token())
                    &&& has_left == toks.drop_last().contains(left_token())
                }),
        {
            let ghost i = it.index();
            proof {
                lemma_split_commas_nonempty(raw@.subrange(0, i as int));
            }
            let ghost prefix = raw@.subrange(0, i as int);
            let ghost toks = split_commas(prefix);
            assert(raw@.subrange(0, i + 1).drop_last() == prefix);
            assert(c == raw@[i as int]);
            if c == ',' {
                if token_is(&token, &['r', 'i', 'g', 'h', 't']) {
                    has_right = true;
                }
                if token_is(&token, &['l', 'e', 'f', 't']) {
                    has_left = true;
                }
                token = Vec::new();
                proof {
                    let next = split_commas(raw@.subrange(0, i + 1));
                    assert(next == toks.push(Seq::<char>::empty()));
                    assert(next.drop_last() == toks);
                    assert(toks == toks.drop_last().push(toks.last()));
                }
            } else {
                token.push(c);
                proof {
                    let next = split_commas(raw@.subrange(0, i + 1));
                    assert(next == toks.update(toks.len() - 1, toks.last().push(c)));
                    assert(next.drop_last() == toks.drop_last());
                }
            }
        }
        let ghost n = raw@.len();
        proof {
            lemma_split_commas_nonempty(raw@);
            assert(raw@.subrange(0, n as int) == raw@);
            let toks = split_commas(raw@);
            assert(toks == toks.drop_last().push(toks.last()));
        }
        if token_is(&token, &['r', 'i', 'g', 'h', 't']) {
            has_right = true;
        }
        if token_is(&token, &['l', 'e', 'f', 't']) {
            has_left = true;
        }
        Arms { has_right, has_left }
    }

    /// Whether the right arm is enabled.
    pub fn has_right(&self) -> (enabled: bool)
        ensures
            enabled == self.right_enabled(),
    {
        self.has_right
    }

    /// Whether the left arm is enabled.
    pub fn has_left(&self) -> (enabled: bool)
        ensures
            enabled == self.left_enabled(),
    {
        self.has_left
    }

    /// Where the left arm's slice starts in a joined position vector: right
    /// after the right arm's slice when the right arm is enabled, and at the
    /// very start otherwise.
    pub open spec fn left_offset(&self) -> int {
        if self.right_enabled() {
            ELEMENTS_PER_ARM as int
        } else {
            0
        }
    }

    /// How many leading elements of a joined position vector the enabled
    /// arms read.
    pub open spec fn joined_len(&self) -> int {
        if self.left_enabled() {
            self.left_offset() + ELEMENTS_PER_ARM
        } else if self.right_enabled() {
            ELEMENTS_PER_ARM as int
        } else {
            0
        }
    }

    /// Splits a joined position vector into the right and left arm's own
    /// slices, according to which sides are enabled.
    ///
    /// The right side, if enabled, reads the first `ELEMENTS_PER_ARM`
    /// elements; the left side then reads the next `ELEMENTS_PER_ARM`
    /// elements starting from wherever the right side stopped -- offset `0`
    /// if the right side is disabled.
    pub fn split_position<T: Copy>(&self, position: &[T]) -> (split: (Option<Vec<T>>, Option<Vec<T>>))
        requires
            position@.len() >= self.joined_len(),
        ensures
            split.0 is Some <==> self.right_enabled(),
            split.1 is Some <==> self.left_enabled(),
            split.0 matches Some(right) ==> right@ == position@.subrange(0, ELEMENTS_PER_ARM as int),
            split.1 matches Some(left) ==> left@ == position@.subrange(
                self.left_offset(),
                self.left_offset() + ELEMENTS_PER_ARM,
            ),
    {
        let mut offset: usize = 0;
        let right = if self.has_right {
            let slice = vstd::slice::slice_to_vec(&position[offset..offset + ELEMENTS_PER_ARM]);
            offset = offset + ELEMENTS_PER_ARM;
            Some(slice)
        } else {
            None
        };
        let left = if self.has_left {
            Some(vstd::slice::slice_to_vec(&position[offset..offset + ELEMENTS_PER_ARM]))
        } else {
            None
        };
        (right, left)
    }
}

/// Whether `token` holds exactly the characters of `word`.
fn token_is(token: &Vec<char>, word: &[char]) -> (same: bool)
    ensures
        same == (token@ == word@),
{
    if token.len() != word.len() {
        return false;
    }
    let mut i: usize = 0;
    while i < token.len()
        invariant
            token.len() == word.len(),
            i <= token.len(),
            forall|j: int| 0 <= j < i ==> token@[j] == word@[j],
        decreases token.len() - i,
    {
        if token[i] != word[i] {
            return false;
        }
        i = i + 1;
    }
    assert(token@ =~= word@);
    true
}

} // verus!
