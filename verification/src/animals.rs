//! Ordered polymorphic records: animal records of several kinds, each with
//! a name and a display category, compared first by category and then by
//! name, both lexicographically.

use vstd::prelude::*;
use vstd::string::StrSliceExecFns;

verus! {

/// Lexicographic "strictly before" over character sequences, by code point:
/// a proper prefix comes first; otherwise the first differing position
/// decides.
pub open spec fn lex_less(a: Seq<char>, b: Seq<char>) -> bool
    decreases a.len(),
{
    if b.len() == 0 {
        false
    } else if a.len() == 0 {
        true
    } else if a[0] != b[0] {
        (a[0] as u32) < (b[0] as u32)
    } else {
        lex_less(a.drop_first(), b.drop_first())
    }
}

/// When two sequences agree on their first `i` positions, what is at and
/// beyond position `i` settles how they compare.
proof fn lemma_lex_prefix(a: Seq<char>, b: Seq<char>, i: int)
    requires
        0 <= i <= a.len(),
        i <= b.len(),
        forall|j: int| 0 <= j < i ==> a[j] == b[j],
    ensures
        i == a.len() && i == b.len() ==> a == b && !lex_less(a, b) && !lex_less(b, a),
        i == a.len() && i < b.len() ==> lex_less(a, b) && !lex_less(b, a) && a != b,
        i < a.len() && i == b.len() ==> lex_less(b, a) && !lex_less(a, b) && a != b,
        i < a.len() && i < b.len() && a[i] != b[i] && (a[i] as u32) < (b[i] as u32)
            ==> lex_less(a, b) && !lex_less(b, a) && a != b,
        i < a.len() && i < b.len() && a[i] != b[i] && (a[i] as u32) > (b[i] as u32)
            ==> lex_less(b, a) && !lex_less(a, b) && a != b,
    decreases i,
{
    if i == 0 {
        if a.len() == 0 && b.len() == 0 {
            assert(a =~= b);
        }
    } else {
        lemma_lex_prefix(a.drop_first(), b.drop_first(), i - 1);
        if i == a.len() && i == b.len() {
            assert(a =~= b);
        }
    }
}

/// Three-way lexicographic comparison of two strings by code point, the
/// order `lex_less` describes.
pub fn str_compare(a: &str, b: &str) -> (r: core::cmp::Ordering)
    ensures
        (r == core::cmp::Ordering::Less <==> lex_less(a@, b@)),
        (r == core::cmp::Ordering::Equal <==> a@ == b@),
        (r == core::cmp::Ordering::Greater <==> lex_less(b@, a@)),
{
    let alen = a.unicode_len();
    let blen = b.unicode_len();
    let mut i: usize = 0;
    loop
        invariant
            alen == a@.len(),
            blen == b@.len(),
            i <= alen,
            i <= blen,
            forall|j: int| 0 <= j < i ==> a@[j] == b@[j],
        decreases alen - i,
    {
        if i == alen && i == blen {
            proof {
                lemma_lex_prefix(a@, b@, i as int);
            }
            return core::cmp::Ordering::Equal;
        }
        if i == alen {
            proof {
                lemma_lex_prefix(a@, b@, i as int);
            }
            return core::cmp::Ordering::Less;
        }
        if i == blen {
            proof {
                lemma_lex_prefix(a@, b@, i as int);
            }
            return core::cmp::Ordering::Greater;
        }
        let ca = a.get_char(i);
        let cb = b.get_char(i);
        if ca != cb {
            proof {
                lemma_lex_prefix(a@, b@, i as int);
            }
            if (ca as u32) < (cb as u32) {
                return core::cmp::Ordering::Less;
            } else {
                return core::cmp::Ordering::Greater;
            }
        }
        i += 1;
    }
}

/// String equality through the three-way comparison.
pub fn str_eq(a: &str, b: &str) -> (r: bool)
    ensures
        r <==> a@ == b@,
{
    matches!(str_compare(a, b), core::cmp::Ordering::Equal)
}

/// A fish record: a name, a display category, and a number of fins.
pub struct Fish {
    fin_amount: usize,
    name: String,
    a_type: String,
}

impl Fish {
    /// The record's name.
    pub closed spec fn name_spec(&self) -> Seq<char> {
        self.name@
    }

    /// The record's display category.
    pub closed spec fn type_spec(&self) -> Seq<char> {
        self.a_type@
    }

    /// The number of fins.
    pub closed spec fn fin_amount_spec(&self) -> usize {
        self.fin_amount
    }

    /// A fish with the given fins and name, categorised as "Fish".
    pub fn new(fin_amount: usize, name: String) -> (f: Self)
        ensures
            f.fin_amount_spec() == fin_amount,
            f.name_spec() == name@,
            f.type_spec() == "Fish"@,
    {
        Self { fin_amount, name, a_type: "Fish".to_owned() }
    }

    pub fn get_fin_amount(&self) -> (r: usize)
        ensures
            r == self.fin_amount_spec(),
    {
        self.fin_amount
    }

    pub fn set_fin_amount(&mut self, fin_amount: usize)
        ensures
            final(self).fin_amount_spec() == fin_amount,
            final(self).name_spec() == old(self).name_spec(),
            final(self).type_spec() == old(self).type_spec(),
    {
        self.fin_amount = fin_amount;
    }

    pub fn get_name(&self) -> (r: &str)
        ensures
            r@ == self.name_spec(),
    {
        self.name.as_str()
    }

    pub fn set_name(&mut self, name: String)
        ensures
            final(self).name_spec() == name@,
            final(self).type_spec() == old(self).type_spec(),
            final(self).fin_amount_spec() == old(self).fin_amount_spec(),
    {
        self.name = name;
    }

    pub fn get_type(&self) -> (r: &str)
        ensures
            r@ == self.type_spec(),
    {
        self.a_type.as_str()
    }

    pub fn set_type(&mut self, a_type: String)
        ensures
            final(self).type_spec() == a_type@,
            final(self).name_spec() == old(self).name_spec(),
            final(self).fin_amount_spec() == old(self).fin_amount_spec(),
    {
        self.a_type = a_type;
    }
}

/// A hamster record: a name, a display category, a colour and a tail length.
pub struct Hamster {
    tail_length: usize,
    color: String,
    name: String,
    a_type: String,
}

impl Hamster {
    /// The record's name.
    pub closed spec fn name_spec(&self) -> Seq<char> {
        self.name@
    }

    /// The record's display category.
    pub closed spec fn type_spec(&self) -> Seq<char> {
        self.a_type@
    }

    /// The tail length.
    pub closed spec fn tail_length_spec(&self) -> usize {
        self.tail_length
    }

    /// The colour.
    pub closed spec fn color_spec(&self) -> Seq<char> {
        self.color@
    }

    /// A hamster with the given tail length, name and colour, categorised
    /// as "Hamster".
    pub fn new(tail_length: usize, name: String, color: String) -> (h: Self)
        ensures
            h.tail_length_spec() == tail_length,
            h.name_spec() == name@,
            h.color_spec() == color@,
            h.type_spec() == "Hamster"@,
    {
        Self { tail_length, color, name, a_type: "Hamster".to_owned() }
    }

    pub fn tail_length(&self) -> (r: usize)
        ensures
            r == self.tail_length_spec(),
    {
        self.tail_length
    }

    pub fn color(&self) -> (r: &str)
        ensures
            r@ == self.color_spec(),
    {
        self.color.as_str()
    }

    pub fn set_tail_length(&mut self, tail_length: usize)
        ensures
            final(self).tail_length_spec() == tail_length,
            final(self).name_spec() == old(self).name_spec(),
            final(self).type_spec() == old(self).type_spec(),
            final(self).color_spec() == old(self).color_spec(),
    {
        self.tail_length = tail_length;
    }

    pub fn set_color(&mut self, color: String)
        ensures
            final(self).color_spec() == color@,
            final(self).name_spec() == old(self).name_spec(),
            final(self).type_spec() == old(self).type_spec(),
            final(self).tail_length_spec() == old(self).tail_length_spec(),
    {
        self.color = color;
    }

    pub fn get_name(&self) -> (r: &str)
        ensures
            r@ == self.name_spec(),
    {
        self.name.as_str()
    }

    pub fn set_name(&mut self, name: String)
        ensures
            final(self).name_spec() == name@,
            final(self).type_spec() == old(self).type_spec(),
            final(self).tail_length_spec() == old(self).tail_length_spec(),
            final(self).color_spec() == old(self).color_spec(),
    {
        self.name = name;
    }

    pub fn get_type(&self) -> (r: &str)
        ensures
            r@ == self.type_spec(),
    {
        self.a_type.as_str()
    }

    pub fn set_type(&mut self, a_type: String)
        ensures
            final(self).type_spec() == a_type@,
            final(self).name_spec() == old(self).name_spec(),
            final(self).tail_length_spec() == old(self).tail_length_spec(),
            final(self).color_spec() == old(self).color_spec(),
    {
        self.a_type = a_type;
    }
}

/// One animal record of either kind: the tagged union the comparison and
/// lookup functions work over.
pub enum Animal {
    Fish(Fish),
    Hamster(Hamster),
}

/// The total order over records: `a` comes strictly before `b` when its
/// category is lexicographically smaller, or the categories are equal and
/// its name is lexicographically smaller.
pub open spec fn orders_before(a: &Animal, b: &Animal) -> bool {
    lex_less(a.type_spec(), b.type_spec()) || (a.type_spec() == b.type_spec() && lex_less(
        a.name_spec(),
        b.name_spec(),
    ))
}

impl Animal {
    /// The record's name, whichever kind it is.
    pub open spec fn name_spec(&self) -> Seq<char> {
        match self {
            Animal::Fish(f) => f.name_spec(),
            Animal::Hamster(h) => h.name_spec(),
        }
    }

    /// The record's display category, whichever kind it is.
    pub open spec fn type_spec(&self) -> Seq<char> {
        match self {
            Animal::Fish(f) => f.type_spec(),
            Animal::Hamster(h) => h.type_spec(),
        }
    }

    pub fn get_name(&self) -> (r: &str)
        ensures
            r@ == self.name_spec(),
    {
        match self {
            Animal::Fish(f) => f.get_name(),
            Animal::Hamster(h) => h.get_name(),
        }
    }

    pub fn set_name(&mut self, name: String)
        ensures
            final(self).name_spec() == name@,
            final(self).type_spec() == old(self).type_spec(),
    {
        match self {
            Animal::Fish(f) => f.set_name(name),
            Animal::Hamster(h) => h.set_name(name),
        }
    }

    pub fn get_type(&self) -> (r: &str)
        ensures
            r@ == self.type_spec(),
    {
        match self {
            Animal::Fish(f) => f.get_type(),
            Animal::Hamster(h) => h.get_type(),
        }
    }

    pub fn set_type(&mut self, a_type: String)
        ensures
            final(self).type_spec() == a_type@,
            final(self).name_spec() == old(self).name_spec(),
    {
        match self {
            Animal::Fish(f) => f.set_type(a_type),
            Animal::Hamster(h) => h.set_type(a_type),
        }
    }

    /// Three-way comparison in the total order `orders_before` describes:
    /// compare categories lexicographically, tie-break on names.
    pub fn cmp(&self, other: &Animal) -> (r: core::cmp::Ordering)
        ensures
            (r == core::cmp::Ordering::Less <==> orders_before(self, other)),
            (r == core::cmp::Ordering::Greater <==> orders_before(other, self)),
            (r == core::cmp::Ordering::Equal <==> self.type_spec() == other.type_spec()
                && self.name_spec() == other.name_spec()),
    {
        match str_compare(self.get_type(), other.get_type()) {
            core::cmp::Ordering::Less => core::cmp::Ordering::Less,
            core::cmp::Ordering::Greater => core::cmp::Ordering::Greater,
            core::cmp::Ordering::Equal => str_compare(self.get_name(), other.get_name()),
        }
    }

    /// The comparison never fails: `partial_cmp` is `cmp`, wrapped.
    pub fn partial_cmp(&self, other: &Animal) -> (r: Option<core::cmp::Ordering>)
        ensures
            (r == Some(core::cmp::Ordering::Less) <==> orders_before(self, other)),
            (r == Some(core::cmp::Ordering::Greater) <==> orders_before(other, self)),
            (r == Some(core::cmp::Ordering::Equal) <==> self.type_spec() == other.type_spec()
                && self.name_spec() == other.name_spec()),
            r is Some,
    {
        Some(self.cmp(other))
    }
}

impl PartialEq for Animal {
    /// Two records are equal when their categories and names are: the
    /// kind-specific fields do not take part, as `eq_spec` states.
    fn eq(&self, other: &Self) -> (r: bool) {
        str_eq(self.get_type(), other.get_type()) && str_eq(self.get_name(), other.get_name())
    }
}

impl vstd::std_specs::cmp::PartialEqSpecImpl for Animal {
    open spec fn obeys_eq_spec() -> bool {
        true
    }

    open spec fn eq_spec(&self, other: &Animal) -> bool {
        self.type_spec() == other.type_spec() && self.name_spec() == other.name_spec()
    }
}

/// The record views a sequence of borrowed records stands for.
pub open spec fn found_views(r: Seq<&Animal>) -> Seq<Animal> {
    r.map_values(|a: &Animal| *a)
}

/// The predicate a name-lookup selects by: the record's name equals `name`.
pub open spec fn name_matches(name: Seq<char>) -> spec_fn(Animal) -> bool {
    |a: Animal| a.name_spec() == name
}

/// All records whose name equals `name`, borrowed, in the order they stand in `animals`.
pub fn find_animals<'a>(animals: &'a Vec<Animal>, name: &str) -> (r: Vec<&'a Animal>)
    ensures
        found_views(r@) == animals@.filter(name_matches(name@)),
{
    let mut r: Vec<&'a Animal> = Vec::new();
    let mut i: usize = 0;
    while i < animals.len()
        invariant
            i <= animals@.len(),
            found_views(r@) == animals@.take(i as int).filter(name_matches(name@)),
        decreases animals@.len() - i,
    {
        let a = &animals[i];
        if str_eq(a.get_name(), name) {
            r.push(a);
        }
        proof {
            broadcast use vstd::seq::Seq::lemma_filter_push, vstd::seq::Seq::lemma_push_map_commute;

            assert(animals@.take(i + 1) =~= animals@.take(i as int).push(animals@[i as int]));
        }
        i += 1;
    }
    proof {
        assert(animals@.take(animals@.len() as int) =~= animals@);
    }
    r
}

} // verus!
