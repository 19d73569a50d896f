//! Runtime values and what the language says of them: how they are shown,
//! when two of them are equal, and which of them count as true.
use crate::text::{push_signed_decimal, signed_decimal, strings_view};
use vstd::prelude::*;

verus! {

/// The mathematical content of a [`Value`].
pub enum ValueModel {
    Nil,
    Int(i64),
    Float(u64),
    Text(Seq<char>),
    Raw(Seq<char>),
    Dango(Seq<ValueModel>),
}

/// A runtime value. A floating-point number is held as its IEEE-754 bit
/// pattern: the library moves such numbers around and never computes on them.
#[derive(Debug, PartialEq)]
pub enum Value {
    Nil,
    Int(i64),
    Float(u64),
    String(String),
    RawText(String),
    Dango(Vec<Value>),
}

/// The views of a list of pairs of values, in order.
pub open spec fn pairs_view(pairs: Seq<(Value, Value)>) -> Seq<(ValueModel, ValueModel)> {
    Seq::new(pairs.len(), |i: int| (pairs[i].0@, pairs[i].1@))
}

/// The views of a list of values, in order.
pub open spec fn views(items: Seq<Value>) -> Seq<ValueModel> {
    Seq::new(items.len(), |i: int| items[i]@)
}

impl View for Value {
    type V = ValueModel;

    open spec fn view(&self) -> ValueModel
        decreases self,
    {
        match self {
            Value::Nil => ValueModel::Nil,
            Value::Int(i) => ValueModel::Int(*i),
            Value::Float(b) => ValueModel::Float(*b),
            Value::String(s) => ValueModel::Text(s@),
            Value::RawText(s) => ValueModel::Raw(s@),
            Value::Dango(items) => ValueModel::Dango(
                Seq::new(
                    items@.len(),
                    |i: int|
                        if 0 <= i < items@.len() {
                            items@[i]@
                        } else {
                            ValueModel::Nil
                        },
                ),
            ),
        }
    }
}

/// The view of a dango is the dango of its items' views.
pub proof fn lemma_dango_view(items: Vec<Value>)
    ensures
        Value::Dango(items)@ == ValueModel::Dango(views(items@)),
{
    reveal_with_fuel(<Value as View>::view, 2);
    let v = Value::Dango(items);
    assert(v@->Dango_0 =~= views(items@));
}

/// A floating-point number among the first `n` items is among the first `m`
/// too, where `m` is no less.
pub proof fn lemma_any_float_grows(items: Seq<ValueModel>, n: nat, m: nat)
    requires
        n <= m <= items.len(),
        ValueModel::any_float(items, n),
    ensures
        ValueModel::any_float(items, m),
    decreases m,
{
    if n < m {
        lemma_any_float_grows(items, n, (m - 1) as nat);
    }
}

/// Where the first `n` items are not all equal in turn, nor are the first
/// `m`, for `m` no less than `n`.
pub proof fn lemma_unequal_item(
    a: Seq<ValueModel>,
    b: Seq<ValueModel>,
    n: nat,
    m: nat,
    answers: Seq<bool>,
)
    requires
        n <= m,
        !ValueModel::equal_items_with(a, b, n, answers),
    ensures
        !ValueModel::equal_items_with(a, b, m, answers),
    decreases m,
{
    if n < m && m <= a.len() && m <= b.len() {
        lemma_unequal_item(a, b, n, (m - 1) as nat, answers);
    }
}

/// The first `n` pairs of items hold no more pairs for floating-point
/// arithmetic than the first `m`, where `m` is no less.
pub proof fn lemma_float_pairs_of_grows(a: Seq<ValueModel>, b: Seq<ValueModel>, n: nat, m: nat)
    requires
        n <= m <= a.len(),
        m <= b.len(),
    ensures
        ValueModel::float_pairs_of(a, b, n).len() <= ValueModel::float_pairs_of(a, b, m).len(),
    decreases m,
{
    if n < m {
        lemma_float_pairs_of_grows(a, b, n, (m - 1) as nat);
    }
}

/// Whether both values are numbers and one of them is a floating-point
/// number.
pub open spec fn float_pair(a: ValueModel, b: ValueModel) -> bool {
    a.is_number() && b.is_number() && (a is Float || b is Float)
}

/// The items of the dango that holds `items[k..]` with at most five items to
/// a skewer: the first item, then the dango of those after it, which is
/// nested as one item once it is full.
pub open spec fn skewered(items: Seq<ValueModel>, k: nat) -> Seq<ValueModel>
    decreases items.len() - k,
{
    if k >= items.len() {
        Seq::empty()
    } else {
        let later = skewered(items, k + 1);
        if later.len() == 5 {
            seq![items[k as int], ValueModel::Dango(later)]
        } else {
            seq![items[k as int]] + later
        }
    }
}

/// The first `n` items hold no more floating-point numbers than the first
/// `m`, where `m` is no less.
pub proof fn lemma_floats_of_grows(items: Seq<ValueModel>, n: nat, m: nat)
    requires
        n <= m <= items.len(),
    ensures
        ValueModel::floats_of(items, n).len() <= ValueModel::floats_of(items, m).len(),
        n > 0 ==> ValueModel::floats_of(items, n).len() == ValueModel::floats_of(
            items,
            (n - 1) as nat,
        ).len() + items[n - 1].floats().len(),
    decreases m,
{
    if n < m {
        lemma_floats_of_grows(items, n, (m - 1) as nat);
    }
}

/// A value in which no floating-point number occurs holds none.
pub proof fn lemma_plain_has_no_floats(v: ValueModel)
    requires
        !v.involves_float(),
    ensures
        v.floats().len() == 0,
    decreases v, 0nat,
{
    match v {
        ValueModel::Dango(items) => lemma_plain_items_have_no_floats(items, items.len()),
        _ => {},
    }
}

/// Items in which no floating-point number occurs hold none.
pub proof fn lemma_plain_items_have_no_floats(items: Seq<ValueModel>, n: nat)
    requires
        n <= items.len(),
        !ValueModel::any_float(items, n),
    ensures
        ValueModel::floats_of(items, n).len() == 0,
    decreases items, n,
{
    if n > 0 {
        lemma_plain_items_have_no_floats(items, (n - 1) as nat);
        lemma_plain_has_no_floats(items[n - 1]);
    }
}

/// The most items that one skewer holds.
pub const SKEWER_CAPACITY: usize = 5;

impl ValueModel {
    /// Whether a floating-point number occurs anywhere in the value.
    pub open spec fn involves_float(self) -> bool
        decreases self, 0nat,
    {
        match self {
            ValueModel::Float(_) => true,
            ValueModel::Dango(items) => Self::any_float(items, items.len()),
            _ => false,
        }
    }

    /// Whether a floating-point number occurs in one of the first `n` items.
    pub open spec fn any_float(items: Seq<ValueModel>, n: nat) -> bool
        decreases items, n,
    {
        if n == 0 || n > items.len() {
            false
        } else {
            Self::any_float(items, (n - 1) as nat) || items[n - 1].involves_float()
        }
    }

    /// Whether the value is a number.
    pub open spec fn is_number(self) -> bool {
        self is Int || self is Float
    }

    /// The floating-point numbers in the value, in the order in which they
    /// are shown.
    pub open spec fn floats(self) -> Seq<u64>
        decreases self, 0nat,
    {
        match self {
            ValueModel::Float(bits) => seq![bits],
            ValueModel::Dango(items) => Self::floats_of(items, items.len()),
            _ => Seq::empty(),
        }
    }

    /// The floating-point numbers in the first `n` items.
    pub open spec fn floats_of(items: Seq<ValueModel>, n: nat) -> Seq<u64>
        decreases items, n,
    {
        if n == 0 || n > items.len() {
            Seq::empty()
        } else {
            Self::floats_of(items, (n - 1) as nat) + items[n - 1].floats()
        }
    }

    /// The text that shows the value, where `texts` holds the text of each
    /// of its floating-point numbers, in order. A dango shows its items one
    /// after the other and then a stick.
    pub open spec fn display_with(self, texts: Seq<Seq<char>>) -> Seq<char>
        decreases self, 0nat,
    {
        match self {
            ValueModel::Nil => "()"@,
            ValueModel::Int(i) => signed_decimal(i as int),
            ValueModel::Float(_) => if texts.len() > 0 {
                texts[0]
            } else {
                Seq::empty()
            },
            ValueModel::Text(s) => s,
            ValueModel::Raw(s) => "("@ + s + ")"@,
            ValueModel::Dango(items) => Self::display_items_with(items, items.len(), texts)
                + "----"@,
        }
    }

    /// The first `n` items of a dango as they are shown: a plain item in
    /// round brackets, a nested dango in square brackets without its stick.
    /// Each item takes its texts from where the items before it left off.
    pub open spec fn display_items_with(
        items: Seq<ValueModel>,
        n: nat,
        texts: Seq<Seq<char>>,
    ) -> Seq<char>
        decreases items, n,
    {
        if n == 0 || n > items.len() {
            Seq::empty()
        } else {
            let own = texts.skip(Self::floats_of(items, (n - 1) as nat).len() as int);
            Self::display_items_with(items, (n - 1) as nat, texts) + match items[n - 1] {
                ValueModel::Dango(inner) => "["@ + Self::display_items_with(
                    inner,
                    inner.len(),
                    own,
                ) + "]"@,
                other => "("@ + other.display_with(own) + ")"@,
            }
        }
    }

    /// The text that shows a value without floating-point numbers.
    pub open spec fn display(self) -> Seq<char> {
        self.display_with(Seq::empty())
    }

    /// The pairs of numbers that the comparison of two values for equality
    /// comes upon and that only floating-point arithmetic can compare, in
    /// order: the two values themselves where they are such a pair, and
    /// those of the items of two dango of one length, taken in turn.
    pub open spec fn float_pairs(self, other: ValueModel) -> Seq<(ValueModel, ValueModel)>
        decreases self, 0nat,
    {
        if float_pair(self, other) {
            seq![(self, other)]
        } else {
            match (self, other) {
                (ValueModel::Dango(a), ValueModel::Dango(b)) => if a.len() == b.len() {
                    Self::float_pairs_of(a, b, a.len())
                } else {
                    Seq::empty()
                },
                _ => Seq::empty(),
            }
        }
    }

    /// The pairs of numbers among the first `n` items of `a` and `b` that
    /// only floating-point arithmetic can compare.
    pub open spec fn float_pairs_of(a: Seq<ValueModel>, b: Seq<ValueModel>, n: nat) -> Seq<
        (ValueModel, ValueModel),
    >
        decreases a, n,
    {
        if n == 0 || n > a.len() || n > b.len() {
            Seq::empty()
        } else {
            Self::float_pairs_of(a, b, (n - 1) as nat) + a[n - 1].float_pairs(b[n - 1])
        }
    }

    /// Whether the language's `=` holds of two values, where `answers` says
    /// of each pair of `float_pairs`, in order, whether the two numbers are
    /// equal. Equal are: equal integers, equal strings, two nils, and two
    /// dango of one length whose items are equal in turn. Raw text equals
    /// nothing.
    pub open spec fn equal_with(self, other: ValueModel, answers: Seq<bool>) -> bool
        decreases self, 0nat,
    {
        if float_pair(self, other) {
            answers.len() > 0 && answers[0]
        } else {
            match (self, other) {
                (ValueModel::Nil, ValueModel::Nil) => true,
                (ValueModel::Int(a), ValueModel::Int(b)) => a == b,
                (ValueModel::Text(a), ValueModel::Text(b)) => a == b,
                (ValueModel::Dango(a), ValueModel::Dango(b)) => a.len() == b.len()
                    && Self::equal_items_with(a, b, a.len(), answers),
                _ => false,
            }
        }
    }

    /// Whether each of the first `n` items of `a` equals the item of `b` at
    /// the same place. Each pair of items takes its answers from where the
    /// pairs before it left off.
    pub open spec fn equal_items_with(
        a: Seq<ValueModel>,
        b: Seq<ValueModel>,
        n: nat,
        answers: Seq<bool>,
    ) -> bool
        decreases a, n,
    {
        if n == 0 {
            true
        } else if n > a.len() || n > b.len() {
            false
        } else {
            Self::equal_items_with(a, b, (n - 1) as nat, answers) && a[n - 1].equal_with(
                b[n - 1],
                answers.skip(Self::float_pairs_of(a, b, (n - 1) as nat).len() as int),
            )
        }
    }

    /// Whether the language's `!=` holds of two values, given the answers
    /// for their `float_pairs`. Two dango differ only where they have one
    /// length and some item is not equal to its counterpart.
    pub open spec fn not_equal_with(self, other: ValueModel, answers: Seq<bool>) -> bool {
        if float_pair(self, other) {
            !(answers.len() > 0 && answers[0])
        } else {
            match (self, other) {
                (ValueModel::Nil, ValueModel::Nil) => false,
                (ValueModel::Int(a), ValueModel::Int(b)) => a != b,
                (ValueModel::Text(a), ValueModel::Text(b)) => a != b,
                (ValueModel::Dango(a), ValueModel::Dango(b)) => a.len() == b.len()
                    && !Self::equal_items_with(a, b, a.len(), answers),
                _ => true,
            }
        }
    }

    /// Whether the language's `=` holds of two values whose comparison needs
    /// no floating-point arithmetic.
    pub open spec fn equal(self, other: ValueModel) -> bool {
        self.equal_with(other, Seq::empty())
    }

    /// Whether the language's `!=` holds of two values whose comparison
    /// needs no floating-point arithmetic.
    pub open spec fn not_equal(self, other: ValueModel) -> bool {
        self.not_equal_with(other, Seq::empty())
    }

    /// Whether the language's `>` holds: between two integers, and between
    /// two dango by their lengths. Other pairs are unordered.
    pub open spec fn greater(self, other: ValueModel) -> bool {
        match (self, other) {
            (ValueModel::Int(a), ValueModel::Int(b)) => a > b,
            (ValueModel::Dango(a), ValueModel::Dango(b)) => a.len() > b.len(),
            _ => false,
        }
    }

    /// Whether the language's `<` holds: between two integers, and between
    /// two dango by their lengths. Other pairs are unordered.
    pub open spec fn less(self, other: ValueModel) -> bool {
        match (self, other) {
            (ValueModel::Int(a), ValueModel::Int(b)) => a < b,
            (ValueModel::Dango(a), ValueModel::Dango(b)) => a.len() < b.len(),
            _ => false,
        }
    }

    /// Whether the value counts as true: a number other than zero, a
    /// non-empty string, a non-empty dango.
    pub open spec fn truthy(self) -> bool {
        match self {
            ValueModel::Nil => false,
            ValueModel::Int(i) => i != 0,
            ValueModel::Float(bits) => bits != 0 && bits != 0x8000_0000_0000_0000,
            ValueModel::Text(s) => s.len() > 0,
            ValueModel::Raw(_) => false,
            ValueModel::Dango(items) => items.len() > 0,
        }
    }
}

impl Value {
    /// A copy of the value, equal to it in every part.
    pub fn copy(&self) -> (r: Value)
        ensures
            r@ == self@,
        decreases self,
    {
        match self {
            Value::Nil => Value::Nil,
            Value::Int(i) => Value::Int(*i),
            Value::Float(b) => Value::Float(*b),
            Value::String(s) => Value::String(s.clone()),
            Value::RawText(s) => Value::RawText(s.clone()),
            Value::Dango(items) => {
                let mut out: Vec<Value> = Vec::new();
                let mut i: usize = 0;
                while i < items.len()
                    invariant
                        i <= items.len(),
                        self matches Value::Dango(v) && v == items,
                        out@.len() == i,
                        forall|j: int| 0 <= j < i ==> out@[j]@ == items@[j]@,
                    decreases items.len() - i,
                {
                    proof {
                        assert(decreases_to!(*items => items[i as int]));
                    }
                    out.push(items[i].copy());
                    i += 1;
                }
                proof {
                    lemma_dango_view(*items);
                    lemma_dango_view(out);
                    assert(views(out@) =~= views(items@));
                }
                Value::Dango(out)
            },
        }
    }

    /// Whether a floating-point number occurs anywhere in the value.
    pub fn involves_float(&self) -> (r: bool)
        ensures
            r == self@.involves_float(),
        decreases self,
    {
        match self {
            Value::Float(_) => true,
            Value::Dango(items) => {
                proof {
                    lemma_dango_view(*items);
                }
                let mut i: usize = 0;
                while i < items.len()
                    invariant
                        i <= items.len(),
                        self matches Value::Dango(v) && v == items,
                        !ValueModel::any_float(views(items@), i as nat),
                    decreases items.len() - i,
                {
                    proof {
                        assert(decreases_to!(*items => items[i as int]));
                    }
                    if items[i].involves_float() {
                        proof {
                            lemma_dango_view(*items);
                            lemma_any_float_grows(views(items@), i as nat + 1, items@.len());
                        }
                        return true;
                    }
                    i += 1;
                }
                false
            },
            _ => false,
        }
    }

    /// Whether the value counts as true.
    pub fn truthy(&self) -> (r: bool)
        ensures
            r == self@.truthy(),
    {
        match self {
            Value::Nil => false,
            Value::Int(i) => *i != 0,
            Value::Float(bits) => *bits != 0 && *bits != 0x8000_0000_0000_0000,
            Value::String(s) => s.as_str().unicode_len() > 0,
            Value::RawText(_) => false,
            Value::Dango(items) => {
                proof {
                    lemma_dango_view(*items);
                }
                items.len() > 0
            },
        }
    }

    /// Appends the floating-point numbers in the value to `out`.
    fn collect_floats(&self, out: &mut Vec<u64>)
        ensures
            final(out)@ == old(out)@ + self@.floats(),
        decreases self,
    {
        match self {
            Value::Float(bits) => {
                out.push(*bits);
                assert(out@ =~= old(out)@ + self@.floats());
            },
            Value::Dango(items) => {
                proof {
                    lemma_dango_view(*items);
                }
                let mut i: usize = 0;
                assert(out@ =~= old(out)@ + ValueModel::floats_of(views(items@), 0));
                while i < items.len()
                    invariant
                        i <= items.len(),
                        self matches Value::Dango(v) && v == items,
                        out@ == old(out)@ + ValueModel::floats_of(views(items@), i as nat),
                    decreases items.len() - i,
                {
                    proof {
                        assert(decreases_to!(*items => items[i as int]));
                    }
                    items[i].collect_floats(out);
                    assert(out@ =~= old(out)@ + ValueModel::floats_of(
                        views(items@),
                        (i + 1) as nat,
                    ));
                    i += 1;
                }
            },
            _ => {
                assert(out@ =~= old(out)@ + self@.floats());
            },
        }
    }

    /// The floating-point numbers in the value, in the order in which they
    /// are shown.
    pub fn floats(&self) -> (r: Vec<u64>)
        ensures
            r@ == self@.floats(),
    {
        let mut out: Vec<u64> = Vec::new();
        self.collect_floats(&mut out);
        assert(out@ =~= self@.floats());
        out
    }

    /// Appends the text that shows the value to `out`, taking the texts of
    /// its floating-point numbers from `texts[at..]`. Returns the index of
    /// the first text that it did not use.
    fn write_with(&self, out: &mut String, texts: &Vec<String>, at: usize) -> (next: usize)
        requires
            at + self@.floats().len() <= texts@.len(),
        ensures
            next == at + self@.floats().len(),
            final(out)@ == old(out)@ + self@.display_with(strings_view(texts@).skip(at as int)),
        decreases self, 1nat,
    {
        match self {
            Value::Nil => {
                out.append("()");
                at
            },
            Value::Int(i) => {
                push_signed_decimal(out, *i);
                at
            },
            Value::Float(_) => {
                let count = texts.len();
                assert(at < count);
                out.append(texts[at].as_str());
                at + 1
            },
            Value::String(s) => {
                out.append(s.as_str());
                at
            },
            Value::RawText(s) => {
                out.append("(");
                out.append(s.as_str());
                out.append(")");
                assert(out@ =~= old(out)@ + self@.display_with(
                    strings_view(texts@).skip(at as int),
                ));
                at
            },
            Value::Dango(items) => {
                let next = self.write_items_with(out, texts, at);
                out.append("----");
                proof {
                    lemma_dango_view(*items);
                    assert(out@ =~= old(out)@ + self@.display_with(
                        strings_view(texts@).skip(at as int),
                    ));
                }
                next
            },
        }
    }

    /// Appends the items of a dango to `out` as they are shown; nothing for
    /// another value.
    fn write_items_with(&self, out: &mut String, texts: &Vec<String>, at: usize) -> (next: usize)
        requires
            self@ is Dango,
            at + self@.floats().len() <= texts@.len(),
        ensures
            next == at + self@.floats().len(),
            final(out)@ == old(out)@ + ValueModel::display_items_with(
                self@->Dango_0,
                self@->Dango_0.len(),
                strings_view(texts@).skip(at as int),
            ),
        decreases self, 0nat,
    {
        let ghost given = strings_view(texts@).skip(at as int);
        match self {
            Value::Dango(items) => {
                proof {
                    lemma_dango_view(*items);
                }
                let ghost shown = views(items@);
                let mut i: usize = 0;
                let mut next: usize = at;
                assert(out@ =~= old(out)@ + ValueModel::display_items_with(shown, 0, given));
                while i < items.len()
                    invariant
                        i <= items.len(),
                        self matches Value::Dango(v) && v == items,
                        shown == views(items@),
                        given == strings_view(texts@).skip(at as int),
                        at + ValueModel::floats_of(shown, shown.len()).len() <= texts@.len(),
                        next == at + ValueModel::floats_of(shown, i as nat).len(),
                        out@ == old(out)@ + ValueModel::display_items_with(shown, i as nat, given),
                    decreases items.len() - i,
                {
                    let ghost own = given.skip(ValueModel::floats_of(shown, i as nat).len() as int);
                    proof {
                        assert(decreases_to!(*items => items[i as int]));
                        lemma_floats_of_grows(shown, (i + 1) as nat, shown.len());
                        assert(own =~= strings_view(texts@).skip(next as int));
                    }
                    match &items[i] {
                        Value::Dango(inner) => {
                            out.append("[");
                            next = items[i].write_items_with(out, texts, next);
                            out.append("]");
                            proof {
                                lemma_dango_view(*inner);
                            }
                        },
                        _ => {
                            out.append("(");
                            next = items[i].write_with(out, texts, next);
                            out.append(")");
                        },
                    }
                    assert(out@ =~= old(out)@ + ValueModel::display_items_with(
                        shown,
                        (i + 1) as nat,
                        given,
                    ));
                    i += 1;
                }
                next
            },
            _ => at,
        }
    }

    /// The text that shows the value, where `texts` holds the text of each
    /// of its floating-point numbers, in order; `None` where `texts` does
    /// not hold one text for each.
    pub fn display_with(&self, texts: &Vec<String>) -> (r: Option<String>)
        ensures
            r is Some <==> texts@.len() == self@.floats().len(),
            r is Some ==> r->0@ == self@.display_with(strings_view(texts@)),
    {
        let count = self.floats().len();
        if texts.len() != count {
            return None;
        }
        let mut out = String::new();
        self.write_with(&mut out, texts, 0);
        proof {
            assert(strings_view(texts@).skip(0) =~= strings_view(texts@));
            assert(out@ =~= self@.display_with(strings_view(texts@)));
        }
        Some(out)
    }

    /// The text that shows the value; `None` where a floating-point number
    /// occurs in it, whose text only the caller can give.
    pub fn display(&self) -> (r: Option<String>)
        ensures
            r is Some <==> !self@.involves_float(),
            r is Some ==> r->0@ == self@.display(),
    {
        if self.involves_float() {
            None
        } else {
            let texts: Vec<String> = Vec::new();
            let mut out = String::new();
            proof {
                lemma_plain_has_no_floats(self@);
            }
            self.write_with(&mut out, &texts, 0);
            proof {
                assert(strings_view(texts@).skip(0) =~= Seq::<Seq<char>>::empty());
                assert(out@ =~= self@.display());
            }
            Some(out)
        }
    }

    /// Appends the pairs of numbers that only floating-point arithmetic can
    /// compare to `out`.
    fn collect_pairs(&self, other: &Value, out: &mut Vec<(Value, Value)>)
        ensures
            pairs_view(final(out)@) == pairs_view(old(out)@) + self@.float_pairs(other@),
        decreases self,
    {
        if self.float_pair(other) {
            out.push((self.copy(), other.copy()));
            assert(pairs_view(out@) =~= pairs_view(old(out)@) + self@.float_pairs(other@));
            return;
        }
        match (self, other) {
            (Value::Dango(a), Value::Dango(b)) => {
                proof {
                    lemma_dango_view(*a);
                    lemma_dango_view(*b);
                }
                if a.len() != b.len() {
                    assert(pairs_view(out@) =~= pairs_view(old(out)@) + self@.float_pairs(other@));
                    return;
                }
                let mut i: usize = 0;
                assert(pairs_view(out@) =~= pairs_view(old(out)@) + ValueModel::float_pairs_of(
                    views(a@),
                    views(b@),
                    0,
                ));
                while i < a.len()
                    invariant
                        i <= a.len() == b.len(),
                        self matches Value::Dango(v) && v == a,
                        pairs_view(out@) == pairs_view(old(out)@) + ValueModel::float_pairs_of(
                            views(a@),
                            views(b@),
                            i as nat,
                        ),
                    decreases a.len() - i,
                {
                    proof {
                        assert(decreases_to!(*a => a[i as int]));
                    }
                    a[i].collect_pairs(&b[i], out);
                    assert(pairs_view(out@) =~= pairs_view(old(out)@)
                        + ValueModel::float_pairs_of(views(a@), views(b@), (i + 1) as nat));
                    i += 1;
                }
            },
            _ => {
                assert(pairs_view(out@) =~= pairs_view(old(out)@) + self@.float_pairs(other@));
            },
        }
    }

    /// The pairs of numbers that the comparison of the two values for
    /// equality comes upon and that only floating-point arithmetic can
    /// compare, in order.
    pub fn float_pairs(&self, other: &Value) -> (r: Vec<(Value, Value)>)
        ensures
            pairs_view(r@) == self@.float_pairs(other@),
    {
        let mut out: Vec<(Value, Value)> = Vec::new();
        assert(pairs_view(out@) =~= Seq::<(ValueModel, ValueModel)>::empty());
        self.collect_pairs(other, &mut out);
        assert(pairs_view(out@) =~= self@.float_pairs(other@));
        out
    }

    /// Whether the two values are equal, taking the answers for their pairs
    /// of numbers from `answers[at..]`. With the answer `true` comes the
    /// index of the first answer that was not used.
    fn equal_from(&self, other: &Value, answers: &Vec<bool>, at: usize) -> (r: (bool, usize))
        requires
            at + self@.float_pairs(other@).len() <= answers@.len(),
        ensures
            r.0 == self@.equal_with(other@, answers@.skip(at as int)),
            r.0 ==> r.1 == at + self@.float_pairs(other@).len(),
        decreases self,
    {
        if self.float_pair(other) {
            let count = answers.len();
            assert(at < count);
            return (answers[at], at + 1);
        }
        match (self, other) {
            (Value::Nil, Value::Nil) => (true, at),
            (Value::Int(a), Value::Int(b)) => (*a == *b, at),
            (Value::String(a), Value::String(b)) => (*a == *b, at),
            (Value::Dango(a), Value::Dango(b)) => {
                proof {
                    lemma_dango_view(*a);
                    lemma_dango_view(*b);
                }
                if a.len() != b.len() {
                    return (false, at);
                }
                let ghost given = answers@.skip(at as int);
                let ghost left = views(a@);
                let ghost right = views(b@);
                let mut i: usize = 0;
                let mut next: usize = at;
                while i < a.len()
                    invariant
                        i <= a.len() == b.len(),
                        self matches Value::Dango(v) && v == a,
                        other matches Value::Dango(w) && w == b,
                        left == views(a@),
                        right == views(b@),
                        given == answers@.skip(at as int),
                        at + ValueModel::float_pairs_of(left, right, left.len()).len()
                            <= answers@.len(),
                        next == at + ValueModel::float_pairs_of(left, right, i as nat).len(),
                        ValueModel::equal_items_with(left, right, i as nat, given),
                    decreases a.len() - i,
                {
                    proof {
                        assert(decreases_to!(*a => a[i as int]));
                        lemma_float_pairs_of_grows(left, right, (i + 1) as nat, left.len());
                        assert(given.skip(
                            ValueModel::float_pairs_of(left, right, i as nat).len() as int,
                        ) =~= answers@.skip(next as int));
                    }
                    let (same, after) = a[i].equal_from(&b[i], answers, next);
                    if !same {
                        proof {
                            lemma_dango_view(*a);
                            lemma_dango_view(*b);
                            lemma_unequal_item(left, right, i as nat + 1, left.len(), given);
                        }
                        return (false, at);
                    }
                    next = after;
                    i += 1;
                }
                (true, next)
            },
            _ => (false, at),
        }
    }

    /// Whether the language's `=` holds of the two values, where `answers`
    /// says of each pair of `float_pairs`, in order, whether the two numbers
    /// are equal; `None` where `answers` does not hold one answer for each.
    pub fn equals_with(&self, other: &Value, answers: &Vec<bool>) -> (r: Option<bool>)
        ensures
            r == if answers@.len() == self@.float_pairs(other@).len() {
                Some(self@.equal_with(other@, answers@))
            } else {
                None
            },
    {
        let pairs = self.float_pairs(other);
        let count = pairs.len();
        assert(pairs_view(pairs@).len() == pairs@.len());
        if answers.len() != count {
            return None;
        }
        assert(answers@.skip(0) =~= answers@);
        Some(self.equal_from(other, answers, 0).0)
    }

    /// Whether the language's `!=` holds of the two values, given the
    /// answers for their `float_pairs`; `None` where `answers` does not hold
    /// one answer for each.
    pub fn differs_with(&self, other: &Value, answers: &Vec<bool>) -> (r: Option<bool>)
        ensures
            r == if answers@.len() == self@.float_pairs(other@).len() {
                Some(self@.not_equal_with(other@, answers@))
            } else {
                None
            },
    {
        let same = match self.equals_with(other, answers) {
            Some(same) => same,
            None => {
                return None;
            },
        };
        if self.float_pair(other) {
            return Some(!same);
        }
        match (self, other) {
            (Value::Nil, Value::Nil) => Some(false),
            (Value::Int(_), Value::Int(_)) => Some(!same),
            (Value::String(_), Value::String(_)) => Some(!same),
            (Value::Dango(a), Value::Dango(b)) => {
                proof {
                    lemma_dango_view(*a);
                    lemma_dango_view(*b);
                }
                Some(a.len() == b.len() && !same)
            },
            _ => Some(true),
        }
    }

    /// Whether the language's `=` holds of the two values; `None` where
    /// only floating-point arithmetic can tell.
    pub fn equals(&self, other: &Value) -> (r: Option<bool>)
        ensures
            r == if self@.float_pairs(other@).len() > 0 {
                None
            } else {
                Some(self@.equal(other@))
            },
    {
        let answers: Vec<bool> = Vec::new();
        self.equals_with(other, &answers)
    }

    /// Whether the language's `!=` holds of the two values; `None` where
    /// only floating-point arithmetic can tell.
    pub fn differs(&self, other: &Value) -> (r: Option<bool>)
        ensures
            r == if self@.float_pairs(other@).len() > 0 {
                None
            } else {
                Some(self@.not_equal(other@))
            },
    {
        let answers: Vec<bool> = Vec::new();
        self.differs_with(other, &answers)
    }

    /// Whether both values are numbers and one of them is a floating-point
    /// number: the pairs that only floating-point arithmetic can combine or
    /// put in order.
    pub fn float_pair(&self, other: &Value) -> (r: bool)
        ensures
            r == float_pair(self@, other@),
    {
        match (self, other) {
            (Value::Float(_), Value::Float(_)) => true,
            (Value::Float(_), Value::Int(_)) => true,
            (Value::Int(_), Value::Float(_)) => true,
            _ => false,
        }
    }

    /// Whether the language's `>` holds of the two values; `None` for two
    /// numbers of which one is a floating-point number.
    pub fn exceeds(&self, other: &Value) -> (r: Option<bool>)
        ensures
            r == if float_pair(self@, other@) {
                None
            } else {
                Some(self@.greater(other@))
            },
    {
        match (self, other) {
            (Value::Int(a), Value::Int(b)) => Some(*a > *b),
            (Value::Dango(a), Value::Dango(b)) => {
                proof {
                    lemma_dango_view(*a);
                    lemma_dango_view(*b);
                }
                Some(a.len() > b.len())
            },
            _ => if self.float_pair(other) {
                None
            } else {
                Some(false)
            },
        }
    }

    /// Whether the language's `<` holds of the two values; `None` for two
    /// numbers of which one is a floating-point number.
    pub fn precedes(&self, other: &Value) -> (r: Option<bool>)
        ensures
            r == if float_pair(self@, other@) {
                None
            } else {
                Some(self@.less(other@))
            },
    {
        match (self, other) {
            (Value::Int(a), Value::Int(b)) => Some(*a < *b),
            (Value::Dango(a), Value::Dango(b)) => {
                proof {
                    lemma_dango_view(*a);
                    lemma_dango_view(*b);
                }
                Some(a.len() < b.len())
            },
            _ => if self.float_pair(other) {
                None
            } else {
                Some(false)
            },
        }
    }

    /// One dango of any number of values. A skewer holds five: where more
    /// are left, the later ones go on a skewer of their own, which takes
    /// the last place of the one before.
    pub fn dango_from_vec(vec: Vec<Value>) -> (r: Value)
        ensures
            r@ == ValueModel::Dango(skewered(views(vec@), 0)),
    {
        let ghost all = views(vec@);
        let mut rest = vec;
        let mut held: Vec<Value> = Vec::new();
        while rest.len() > 0
            invariant
                rest@.len() <= all.len(),
                views(rest@) == all.take(rest@.len() as int),
                views(held@) == skewered(all, rest@.len()),
            decreases rest@.len(),
        {
            let ghost before = rest@;
            let item = rest.pop().unwrap();
            if held.len() == SKEWER_CAPACITY {
                let mut outer: Vec<Value> = Vec::new();
                proof {
                    lemma_dango_view(held);
                }
                outer.push(Value::Dango(held));
                held = outer;
            }
            held.insert(0, item);
            proof {
                assert(views(rest@) =~= all.take(rest@.len() as int));
                assert(item@ == all[rest@.len() as int]) by {
                    assert(views(before)[rest@.len() as int] == item@);
                }
                assert(views(held@) =~= skewered(all, rest@.len()));
            }
        }
        proof {
            lemma_dango_view(held);
        }
        Value::Dango(held)
    }
}

} // verus!
