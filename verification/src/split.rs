//! Cutting a text in two at its single comma.

use vstd::prelude::*;
use vstd::string::*;
use vstd::std_specs::iter::IteratorSpec;

verus! {

/// The text did not hold exactly one comma.
#[derive(Debug, PartialEq, Eq, Structural)]
pub struct SplitError;

/// The character at which a text is cut.
pub const DELIMITER: char = ',';

/// How many times the delimiter occurs in `s`.
pub open spec fn delimiter_count(s: Seq<char>) -> nat
    decreases s.len(),
{
    if s.len() == 0 {
        0
    } else {
        delimiter_count(s.drop_last()) + if s.last() == DELIMITER {
            1nat
        } else {
            0nat
        }
    }
}

/// Whether cutting `s` at a delimiter gives `left` and `right`, neither of
/// which holds another delimiter.
pub open spec fn is_cut_of(s: Seq<char>, left: Seq<char>, right: Seq<char>) -> bool {
    &&& s == left + seq![DELIMITER] + right
    &&& !left.contains(DELIMITER)
    &&& !right.contains(DELIMITER)
}

/// The delimiters of a joined text are those of its two parts.
pub proof fn lemma_delimiter_count_of_join(a: Seq<char>, b: Seq<char>)
    ensures
        delimiter_count(a + b) == delimiter_count(a) + delimiter_count(b),
    decreases b.len(),
{
    if b.len() == 0 {
        assert(a + b =~= a);
    } else {
        assert((a + b).drop_last() =~= a + b.drop_last());
        lemma_delimiter_count_of_join(a, b.drop_last());
    }
}

/// The count is zero on the texts without a delimiter, and on no others.
pub proof fn lemma_delimiter_count_zero(s: Seq<char>)
    ensures
        delimiter_count(s) == 0 <==> !s.contains(DELIMITER),
    decreases s.len(),
{
    if s.len() > 0 {
        lemma_delimiter_count_zero(s.drop_last());
        if s.contains(DELIMITER) {
            let i = choose|i: int| 0 <= i < s.len() && s[i] == DELIMITER;
            if i < s.len() - 1 {
                assert(s.drop_last()[i] == DELIMITER);
            }
        } else {
            assert forall|i: int| 0 <= i < s.drop_last().len() implies s.drop_last()[i]
                != DELIMITER by {
                assert(s[i] == s.drop_last()[i]);
            }
            assert(s.last() == s[s.len() - 1]);
        }
    }
}

/// A text that can be cut in two holds exactly one delimiter.
pub proof fn lemma_cut_has_one_delimiter(s: Seq<char>, left: Seq<char>, right: Seq<char>)
    requires
        is_cut_of(s, left, right),
    ensures
        delimiter_count(s) == 1,
{
    let mid = seq![DELIMITER];
    assert(mid.drop_last() =~= Seq::<char>::empty());
    assert(delimiter_count(mid.drop_last()) == 0);
    assert(delimiter_count(mid) == 1);
    lemma_delimiter_count_of_join(left, mid);
    lemma_delimiter_count_of_join(left + mid, right);
    lemma_delimiter_count_zero(left);
    lemma_delimiter_count_zero(right);
}

/// A text can be cut in two in one way only.
pub proof fn lemma_cut_is_unique(
    s: Seq<char>,
    left: Seq<char>,
    right: Seq<char>,
    other_left: Seq<char>,
    other_right: Seq<char>,
)
    requires
        is_cut_of(s, left, right),
        is_cut_of(s, other_left, other_right),
    ensures
        left == other_left,
        right == other_right,
{
    let p = left.len() as int;
    let q = other_left.len() as int;
    assert(s[p] == DELIMITER);
    assert(s[q] == DELIMITER);
    if p < q {
        assert(other_left[p] == s[p]);
    } else if q < p {
        assert(left[q] == s[q]);
    }
    assert(left =~= s.subrange(0, p));
    assert(other_left =~= s.subrange(0, q));
    assert(right =~= s.subrange(p + 1, s.len() as int));
    assert(other_right =~= s.subrange(q + 1, s.len() as int));
}

/// A text that does not hold exactly one delimiter cannot be cut in two.
pub proof fn lemma_no_cut_without_one_delimiter(s: Seq<char>)
    requires
        delimiter_count(s) != 1,
    ensures
        forall|left: Seq<char>, right: Seq<char>| !is_cut_of(s, left, right),
{
    assert forall|left: Seq<char>, right: Seq<char>| !is_cut_of(s, left, right) by {
        if is_cut_of(s, left, right) {
            lemma_cut_has_one_delimiter(s, left, right);
        }
    }
}

/// Beside one cut of a text there is no other.
pub proof fn lemma_no_other_cut(s: Seq<char>, left: Seq<char>, right: Seq<char>)
    requires
        is_cut_of(s, left, right),
    ensures
        forall|other_left: Seq<char>, other_right: Seq<char>| #[trigger]
            is_cut_of(s, other_left, other_right) ==> other_left == left && other_right == right,
{
    assert forall|other_left: Seq<char>, other_right: Seq<char>| #[trigger]
        is_cut_of(s, other_left, other_right) implies other_left == left && other_right
        == right by {
        lemma_cut_is_unique(s, left, right, other_left, other_right);
    }
}

/// A text with exactly one delimiter can be cut in two.
pub proof fn lemma_one_delimiter_has_cut(s: Seq<char>)
    requires
        delimiter_count(s) == 1,
    ensures
        exists|left: Seq<char>, right: Seq<char>| is_cut_of(s, left, right),
    decreases s.len(),
{
    let front = s.drop_last();
    if s.last() == DELIMITER {
        lemma_delimiter_count_zero(front);
        let right = Seq::<char>::empty();
        assert(s =~= front + seq![DELIMITER] + right);
        assert(is_cut_of(s, front, right));
    } else {
        lemma_one_delimiter_has_cut(front);
        let (left, inner) = choose|left: Seq<char>, inner: Seq<char>| is_cut_of(front, left, inner);
        let right = inner.push(s.last());
        assert(s =~= front.push(s.last()));
        assert(front == left + seq![DELIMITER] + inner);
        assert(s =~= left + seq![DELIMITER] + right);
        assert forall|i: int| 0 <= i < right.len() implies right[i] != DELIMITER by {
            if i < inner.len() {
                assert(inner[i] == right[i]);
            }
        }
        assert(is_cut_of(s, left, right));
    }
}

/// A beginning of a text holds no more delimiters than the text.
proof fn lemma_delimiter_count_of_beginning(s: Seq<char>, n: int)
    requires
        0 <= n <= s.len(),
    ensures
        delimiter_count(s.take(n)) <= delimiter_count(s),
{
    assert(s =~= s.take(n) + s.skip(n));
    lemma_delimiter_count_of_join(s.take(n), s.skip(n));
}

/// Cuts `s` at its delimiter into what stands before it and what stands
/// after it.
///
/// This succeeds on the texts that hold exactly one delimiter; either part
/// may be empty. A text without a delimiter, the empty text among them, and a
/// text with two or more are errors.
pub fn split(s: &str) -> (res: Result<(&str, &str), SplitError>)
    ensures
        res is Ok <==> delimiter_count(s@) == 1,
        res is Ok ==> is_cut_of(s@, res->Ok_0.0@, res->Ok_0.1@),
{
    let n: usize = s.unicode_len();
    let mut rest = s.chars();
    let mut found: Option<usize> = None;
    let mut i: usize = 0;
    loop
        invariant
            n == s@.len(),
            i <= n,
            rest.remaining() == s@.skip(i as int),
            match found {
                Some(p) => {
                    &&& p < i
                    &&& s@[p as int] == DELIMITER
                    &&& !s@.subrange(0, p as int).contains(DELIMITER)
                    &&& !s@.subrange(p + 1, i as int).contains(DELIMITER)
                },
                None => !s@.take(i as int).contains(DELIMITER),
            },
        ensures
            i == n,
        decreases n - i,
    {
        match rest.next() {
            None => {
                assert(s@.skip(i as int).len() == 0);
                break;
            },
            Some(c) => {
                assert(c == s@[i as int]);
                assert(s@.skip(i as int).drop_first() =~= s@.skip(i + 1));
                if c == DELIMITER {
                    match found {
                        Some(p) => {
                            proof {
                                let left = s@.subrange(0, p as int);
                                let right = s@.subrange(p + 1, i as int);
                                assert(s@.take(i as int) =~= left + seq![DELIMITER] + right);
                                lemma_cut_has_one_delimiter(s@.take(i as int), left, right);
                                assert(s@.take(i + 1).drop_last() =~= s@.take(i as int));
                                lemma_delimiter_count_of_beginning(s@, i + 1);
                            }
                            return Err(SplitError);
                        },
                        None => {
                            assert(s@.subrange(0, i as int) =~= s@.take(i as int));
                            found = Some(i);
                        },
                    }
                } else {
                    proof {
                        match found {
                            Some(p) => {
                                let before = s@.subrange(p + 1, i as int);
                                let after = s@.subrange(p + 1, i + 1);
                                assert forall|j: int| 0 <= j < after.len() implies after[j]
                                    != DELIMITER by {
                                    if j < before.len() {
                                        assert(before[j] == after[j]);
                                    }
                                }
                            },
                            None => {
                                let before = s@.take(i as int);
                                let after = s@.take(i + 1);
                                assert forall|j: int| 0 <= j < after.len() implies after[j]
                                    != DELIMITER by {
                                    if j < before.len() {
                                        assert(before[j] == after[j]);
                                    }
                                }
                            },
                        }
                    }
                }
                i += 1;
            },
        }
    }
    match found {
        Some(p) => {
            let left = s.substring_char(0, p);
            let right = s.substring_char(p + 1, n);
            proof {
                assert(s@ =~= left@ + seq![DELIMITER] + right@);
                lemma_cut_has_one_delimiter(s@, left@, right@);
            }
            Ok((left, right))
        },
        None => {
            proof {
                assert(s@.take(n as int) =~= s@);
                lemma_delimiter_count_zero(s@);
            }
            Err(SplitError)
        },
    }
}

} // verus!
