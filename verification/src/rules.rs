//! Rule sets: ordered lists of predicate/substitution matchers, applied to
//! values one at a time or over a whole sequence.
use vstd::prelude::*;
use crate::render::dec_repr;
use crate::value::FizzValue;

verus! {

/// One rule: a predicate over values, paired with the substitution emitted
/// when the predicate holds.
#[verifier::reject_recursive_types(T)]
pub struct Matcher<T, F> where F: Fn(T) -> bool {
    pred: F,
    subs: String,
    meaning: Ghost<spec_fn(T) -> bool>,
}

impl<T, F> Matcher<T, F> where F: Fn(T) -> bool {
    /// Whether this matcher fires on `v`.
    pub closed spec fn matches(self, v: T) -> bool {
        (self.meaning@)(v)
    }

    /// The substitution emitted when this matcher fires.
    pub closed spec fn sub(self) -> Seq<char> {
        self.subs@
    }

    /// The predicate accepts every value, and every answer it can give agrees
    /// with `matches`.
    pub closed spec fn wf(self) -> bool {
        &&& forall|v: T| #[trigger] call_requires(self.pred, (v,))
        &&& forall|v: T, b: bool| call_ensures(self.pred, (v,), b) ==> b == self.matches(v)
    }

    /// Builds a matcher from a predicate together with its stated meaning:
    /// the predicate must accept every value and can only answer what the
    /// meaning says.
    pub fn with_meaning(pred: F, Ghost(p): Ghost<spec_fn(T) -> bool>, subs: &str) -> (m: Self)
        requires
            forall|v: T| #[trigger] call_requires(pred, (v,)),
            forall|v: T, b: bool| call_ensures(pred, (v,), b) ==> b == p(v),
        ensures
            m.wf(),
            forall|v: T| #[trigger] m.matches(v) == p(v),
            m.sub() == subs@,
    {
        Matcher { pred, subs: String::from_str(subs), meaning: Ghost(p) }
    }

    /// Builds a matcher from a pure predicate: one that accepts every value
    /// and, on a given value, can only answer one way. The matcher then fires
    /// exactly where the predicate can answer `true`.
    pub fn new(pred: F, subs: &str) -> (m: Self)
        requires
            forall|v: T| #[trigger] call_requires(pred, (v,)),
            forall|v: T, b1: bool, b2: bool|
                call_ensures(pred, (v,), b1) && call_ensures(pred, (v,), b2) ==> b1 == b2,
        ensures
            m.wf(),
            forall|v: T| #[trigger] m.matches(v) == call_ensures(pred, (v,), true),
            m.sub() == subs@,
    {
        let ghost p = |v: T| call_ensures(pred, (v,), true);
        proof {
            assert forall|v: T, b: bool| call_ensures(pred, (v,), b) implies b == p(v) by {
                if b {
                    assert(call_ensures(pred, (v,), true));
                }
            }
        }
        Matcher { pred, subs: String::from_str(subs), meaning: Ghost(p) }
    }
}

/// The concatenation, in order, of the substitutions of the rules that match
/// `v`.
pub open spec fn subs_concat<T, F>(rules: Seq<Matcher<T, F>>, v: T) -> Seq<char> where
    F: Fn(T) -> bool
    decreases rules.len(),
{
    if rules.len() == 0 {
        Seq::empty()
    } else {
        subs_concat(rules.drop_last(), v) + if rules.last().matches(v) {
            rules.last().sub()
        } else {
            Seq::empty()
        }
    }
}

/// An ordered rule set. Substitutions are concatenated in insertion order;
/// a value no rule substitutes for falls back to its own decimal form.
#[verifier::reject_recursive_types(T)]
pub struct Fizzy<T, F> where F: Fn(T) -> bool {
    matchers: Vec<Matcher<T, F>>,
}

impl<T, F> Fizzy<T, F> where T: FizzValue, F: Fn(T) -> bool {
    /// The rules, in insertion order.
    pub closed spec fn rules(self) -> Seq<Matcher<T, F>> {
        self.matchers@
    }

    /// Every rule in the set is well formed.
    pub open spec fn wf(self) -> bool {
        forall|i: int| 0 <= i < self.rules().len() ==> (#[trigger] self.rules()[i]).wf()
    }

    /// The string `apply_to` returns for `v`.
    pub open spec fn spec_apply_to(self, v: T) -> Seq<char> {
        if subs_concat(self.rules(), v).len() == 0 {
            dec_repr(v.as_int())
        } else {
            subs_concat(self.rules(), v)
        }
    }

    /// The strings `apply` returns, one per input, in input order.
    pub open spec fn spec_apply(self, items: Seq<T>) -> Seq<Seq<char>> {
        Seq::new(items.len(), |i: int| self.spec_apply_to(items[i]))
    }

    /// A rule set with no rules.
    pub fn new() -> (r: Self)
        ensures
            r.rules() == Seq::<Matcher<T, F>>::empty(),
    {
        Fizzy { matchers: Vec::new() }
    }

    /// A rule set with no rules; the capacity is an allocation hint only.
    pub fn with_capacity(capacity: usize) -> (r: Self)
        ensures
            r.rules() == Seq::<Matcher<T, F>>::empty(),
    {
        Fizzy { matchers: Vec::with_capacity(capacity) }
    }

    /// Appends a matcher at the end of the rule list.
    pub fn add_matcher(self, matcher: Matcher<T, F>) -> (r: Self)
        ensures
            r.rules() == self.rules().push(matcher),
    {
        let mut matchers = self.matchers;
        matchers.push(matcher);
        Fizzy { matchers }
    }

    /// Evaluates every rule against `item`, in insertion order, concatenating
    /// the substitutions of those that match; when the concatenation is empty
    /// (no rule matched, or the matching rules all substitute the empty
    /// string) the result is the decimal form of `item` instead.
    ///
    /// The result is a function of the rule set and the value alone: applying
    /// the same rule set to the same value twice yields the same string.
    pub fn apply_to(&self, item: T) -> (r: String)
        requires
            self.wf(),
        ensures
            r@ == self.spec_apply_to(item),
    {
        let mut out = String::new();
        let n = self.matchers.len();
        for i in 0..n
            invariant
                self.wf(),
                n == self.rules().len(),
                out@ == subs_concat(self.rules().take(i as int), item),
        {
            let m = &self.matchers[i];
            let fired = (m.pred)(item);
            if fired {
                out.append(m.subs.as_str());
            }
            proof {
                let rs = self.rules();
                assert(rs.take(i + 1).drop_last() =~= rs.take(i as int));
                assert(rs.take(i + 1).last() == rs[i as int]);
                assert(out@ == subs_concat(rs.take(i + 1), item));
            }
        }
        proof {
            assert(self.rules().take(n as int) =~= self.rules());
        }
        if out.as_str().is_empty() {
            item.render()
        } else {
            out
        }
    }

    /// Applies the rule set to every value of `items`, in order: one output
    /// string per input value, each the result of `apply_to` on that value.
    pub fn apply(&self, items: &Vec<T>) -> (r: Vec<String>)
        requires
            self.wf(),
        ensures
            r@.len() == items@.len(),
            forall|i: int| 0 <= i < items@.len() ==> (#[trigger] r@[i])@ == self.spec_apply_to(
                items@[i],
            ),
            r@.map_values(|s: String| s@) == self.spec_apply(items@),
    {
        let mut out: Vec<String> = Vec::new();
        let n = items.len();
        for i in 0..n
            invariant
                self.wf(),
                n == items@.len(),
                out@.len() == i,
                forall|j: int| 0 <= j < i ==> (#[trigger] out@[j])@ == self.spec_apply_to(
                    items@[j],
                ),
        {
            let s = self.apply_to(items[i]);
            out.push(s);
        }
        proof {
            assert(out@.map_values(|s: String| s@) =~= self.spec_apply(items@));
        }
        out
    }
}

impl<T, F> core::default::Default for Fizzy<T, F> where T: FizzValue, F: Fn(T) -> bool {
    /// A rule set with no rules.
    fn default() -> (r: Self)
        ensures
            r.rules() == Seq::<Matcher<T, F>>::empty(),
    {
        Fizzy::new()
    }
}

/// A predicate that fires on the multiples of `d`.
fn divisible_pred<T: FizzValue>(d: T) -> (f: impl Fn(T) -> bool)
    requires
        d.as_int() > 0,
    ensures
        forall|v: T| #[trigger] call_requires(f, (v,)),
        forall|v: T, b: bool| call_ensures(f, (v,), b) ==> b == (v.as_int() % d.as_int() == 0),
{
    move |v: T| -> (r: bool)
        ensures
            r == (v.as_int() % d.as_int() == 0),
        {
            v.divisible_by(d)
        }
}

/// The shape of the default rule set: a divisible-by-3 rule substituting
/// "fizz", then a divisible-by-5 rule substituting "buzz", and nothing else.
pub open spec fn fizz_buzz_rules<T, F>(r: Fizzy<T, F>) -> bool where T: FizzValue, F: Fn(
    T,
) -> bool {
    &&& r.rules().len() == 2
    &&& forall|v: T| #[trigger] r.rules()[0].matches(v) == (v.as_int() % 3 == 0)
    &&& r.rules()[0].sub() == "fizz"@
    &&& forall|v: T| #[trigger] r.rules()[1].matches(v) == (v.as_int() % 5 == 0)
    &&& r.rules()[1].sub() == "buzz"@
}

/// The classic rule set: multiples of 3 render as "fizz", multiples of 5 as
/// "buzz" (so multiples of both as "fizzbuzz"), and every other value as its
/// own decimal form.
pub fn fizz_buzz<T: FizzValue>() -> (r: Fizzy<T, impl Fn(T) -> bool>)
    ensures
        r.wf(),
        fizz_buzz_rules(r),
{
    let three = T::from_u8(3);
    let five = T::from_u8(5);
    let m3 = Matcher::with_meaning(
        divisible_pred(three),
        Ghost(|v: T| v.as_int() % 3 == 0),
        "fizz",
    );
    let m5 = Matcher::with_meaning(
        divisible_pred(five),
        Ghost(|v: T| v.as_int() % 5 == 0),
        "buzz",
    );
    Fizzy::new().add_matcher(m3).add_matcher(m5)
}

/// Two rule lists whose rules fire alike and substitute alike concatenate to
/// the same string, even over different value types.
proof fn lemma_subs_concat_congruent<T1, F1, T2, F2>(
    s1: Seq<Matcher<T1, F1>>,
    s2: Seq<Matcher<T2, F2>>,
    v1: T1,
    v2: T2,
) where F1: Fn(T1) -> bool, F2: Fn(T2) -> bool
    requires
        s1.len() == s2.len(),
        forall|i: int| 0 <= i < s1.len() ==> (#[trigger] s1[i]).matches(v1) == s2[i].matches(v2),
        forall|i: int| 0 <= i < s1.len() ==> (#[trigger] s1[i]).sub() == s2[i].sub(),
    ensures
        subs_concat(s1, v1) == subs_concat(s2, v2),
    decreases s1.len(),
{
    if s1.len() > 0 {
        lemma_subs_concat_congruent(s1.drop_last(), s2.drop_last(), v1, v2);
    }
}

/// What a rule set returns depends only on which rules fire and what they
/// substitute, and on the value's own integer: two rule sets that agree on
/// those, even over different value types, return the same string.
pub proof fn lemma_same_rules_same_output<T1, F1, T2, F2>(
    r1: Fizzy<T1, F1>,
    r2: Fizzy<T2, F2>,
    v1: T1,
    v2: T2,
) where T1: FizzValue, T2: FizzValue, F1: Fn(T1) -> bool, F2: Fn(T2) -> bool
    requires
        r1.rules().len() == r2.rules().len(),
        forall|i: int|
            0 <= i < r1.rules().len() ==> (#[trigger] r1.rules()[i]).matches(v1)
                == r2.rules()[i].matches(v2),
        forall|i: int|
            0 <= i < r1.rules().len() ==> (#[trigger] r1.rules()[i]).sub()
                == r2.rules()[i].sub(),
        v1.as_int() == v2.as_int(),
    ensures
        r1.spec_apply_to(v1) == r2.spec_apply_to(v2),
{
    lemma_subs_concat_congruent(r1.rules(), r2.rules(), v1, v2);
}

/// The default rule set behaves identically at every integer width: two
/// values standing for the same integer, whatever their types, produce the
/// same string.
pub proof fn lemma_fizz_buzz_width_independent<T1, F1, T2, F2>(
    r1: Fizzy<T1, F1>,
    r2: Fizzy<T2, F2>,
    v1: T1,
    v2: T2,
) where T1: FizzValue, T2: FizzValue, F1: Fn(T1) -> bool, F2: Fn(T2) -> bool
    requires
        fizz_buzz_rules(r1),
        fizz_buzz_rules(r2),
        v1.as_int() == v2.as_int(),
    ensures
        r1.spec_apply_to(v1) == r2.spec_apply_to(v2),
{
    lemma_same_rules_same_output(r1, r2, v1, v2);
}

/// Under a rule set with no rules, every value renders as its own decimal
/// form.
pub proof fn lemma_empty_rules_default<T, F>(r: Fizzy<T, F>, v: T) where
    T: FizzValue,
    F: Fn(T) -> bool,
    requires
        r.rules().len() == 0,
    ensures
        r.spec_apply_to(v) == dec_repr(v.as_int()),
{
}

/// Substitutions concatenate in rule order: when both rules of a two-rule
/// list fire, the earlier rule's substitution comes first.
pub proof fn lemma_pair_order<T, F>(m1: Matcher<T, F>, m2: Matcher<T, F>, v: T) where F: Fn(
    T,
) -> bool
    requires
        m1.matches(v),
        m2.matches(v),
    ensures
        subs_concat(seq![m1, m2], v) == m1.sub() + m2.sub(),
{
    lemma_two_rules_concat(seq![m1, m2], v);
    assert(subs_concat(seq![m1, m2], v) =~= m1.sub() + m2.sub());
}

/// Spells out the concatenation for a two-rule list.
proof fn lemma_two_rules_concat<T, F>(rs: Seq<Matcher<T, F>>, v: T) where F: Fn(T) -> bool
    requires
        rs.len() == 2,
    ensures
        subs_concat(rs, v) == (if rs[0].matches(v) {
            rs[0].sub()
        } else {
            Seq::<char>::empty()
        }) + (if rs[1].matches(v) {
            rs[1].sub()
        } else {
            Seq::<char>::empty()
        }),
{
    let first = seq![rs[0]];
    assert(rs.drop_last() =~= first);
    assert(first.drop_last() =~= Seq::<Matcher<T, F>>::empty());
    assert(subs_concat(Seq::<Matcher<T, F>>::empty(), v) =~= Seq::<char>::empty());
    assert(subs_concat(first, v) =~= if rs[0].matches(v) {
        rs[0].sub()
    } else {
        Seq::<char>::empty()
    });
    assert(subs_concat(rs, v) =~= (if rs[0].matches(v) {
        rs[0].sub()
    } else {
        Seq::<char>::empty()
    }) + (if rs[1].matches(v) {
        rs[1].sub()
    } else {
        Seq::<char>::empty()
    }));
}

/// Each output position is tied to its input position alone, so reordering
/// the input reorders the output identically.
pub proof fn lemma_reorder<T, F>(
    r: Fizzy<T, F>,
    xs: Seq<T>,
    ys: Seq<T>,
    p: spec_fn(int) -> int,
) where T: FizzValue, F: Fn(T) -> bool
    requires
        ys.len() == xs.len(),
        forall|j: int| 0 <= j < ys.len() ==> 0 <= #[trigger] p(j) < xs.len(),
        forall|j: int| 0 <= j < ys.len() ==> ys[j] == xs[p(j)],
    ensures
        forall|j: int|
            0 <= j < ys.len() ==> r.spec_apply(ys)[j] == r.spec_apply(xs)[p(j)],
{
}

/// What the default rule set renders for any value: "fizzbuzz" for the
/// multiples of both 3 and 5, "fizz" or "buzz" for the multiples of one of
/// them alone, and the value's own decimal form otherwise.
pub proof fn lemma_fizz_buzz_output<T, F>(r: Fizzy<T, F>, v: T) where
    T: FizzValue,
    F: Fn(T) -> bool,
    requires
        fizz_buzz_rules(r),
    ensures
        v.as_int() % 3 == 0 && v.as_int() % 5 == 0 ==> r.spec_apply_to(v) == "fizzbuzz"@,
        v.as_int() % 3 == 0 && v.as_int() % 5 != 0 ==> r.spec_apply_to(v) == "fizz"@,
        v.as_int() % 3 != 0 && v.as_int() % 5 == 0 ==> r.spec_apply_to(v) == "buzz"@,
        v.as_int() % 3 != 0 && v.as_int() % 5 != 0 ==> r.spec_apply_to(v) == dec_repr(
            v.as_int(),
        ),
{
    reveal_strlit("fizz");
    reveal_strlit("buzz");
    reveal_strlit("fizzbuzz");
    let rs = r.rules();
    lemma_two_rules_concat(rs, v);
    if v.as_int() % 3 == 0 && v.as_int() % 5 == 0 {
        assert(subs_concat(rs, v) =~= "fizzbuzz"@);
    } else if v.as_int() % 3 == 0 {
        assert(subs_concat(rs, v) =~= "fizz"@);
    } else if v.as_int() % 5 == 0 {
        assert(subs_concat(rs, v) =~= "buzz"@);
    } else {
        assert(subs_concat(rs, v) =~= Seq::<char>::empty());
    }
}

} // verus!
