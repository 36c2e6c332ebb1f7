//! Struct types and their canonical type strings: the primary type as
//! `Name(type1 name1,type2 name2)`, followed without separator by every type
//! it refers to, in ascending order of type name.

use vstd::prelude::*;
use vstd::utf8::encode_utf8;
use crate::primitives::{keccak256, keccak256_array};

verus! {

/// One field of a struct type.
#[derive(Clone, Debug, PartialEq, Eq)]
pub struct Field {
    pub field_type: String,
    pub name: String,
}

/// What a [`Field`] stands for.
pub struct FieldView {
    pub field_type: Seq<char>,
    pub name: Seq<char>,
}

impl View for Field {
    type V = FieldView;

    open spec fn view(&self) -> FieldView {
        FieldView { field_type: self.field_type@, name: self.name@ }
    }
}

/// A struct type: its name, and its fields in declaration order.
#[derive(Clone, Debug, PartialEq, Eq)]
pub struct StructType {
    pub name: String,
    pub fields: Vec<Field>,
}

/// What a [`StructType`] stands for.
pub struct StructTypeView {
    pub name: Seq<char>,
    pub fields: Seq<FieldView>,
}

impl View for StructType {
    type V = StructTypeView;

    open spec fn view(&self) -> StructTypeView {
        StructTypeView { name: self.name@, fields: self.fields@.map_values(|f: Field| f@) }
    }
}

/// How one name stands to another in the order of type names.
#[derive(Clone, Copy, Debug, PartialEq, Eq)]
pub enum NameOrder {
    Before,
    Same,
    After,
}

/// The order of type names: byte strings in dictionary order, a proper
/// prefix before what it is a prefix of.
pub open spec fn name_before(a: Seq<u8>, b: Seq<u8>) -> bool
    decreases a.len(),
{
    if b.len() == 0 {
        false
    } else if a.len() == 0 {
        true
    } else if a[0] != b[0] {
        a[0] < b[0]
    } else {
        name_before(a.drop_first(), b.drop_first())
    }
}

/// No name stands before itself.
pub proof fn lemma_name_before_irreflexive(a: Seq<u8>)
    ensures
        !name_before(a, a),
    decreases a.len(),
{
    if a.len() > 0 {
        lemma_name_before_irreflexive(a.drop_first());
    }
}

/// Of two names, one stands before the other, or they are the same name.
pub proof fn lemma_name_before_total(a: Seq<u8>, b: Seq<u8>)
    ensures
        name_before(a, b) || a == b || name_before(b, a),
    decreases a.len(),
{
    if a.len() > 0 && b.len() > 0 && a[0] == b[0] {
        lemma_name_before_total(a.drop_first(), b.drop_first());
        if a.drop_first() == b.drop_first() {
            assert(a =~= seq![a[0]] + a.drop_first());
            assert(b =~= seq![b[0]] + b.drop_first());
        }
    } else if a.len() == 0 && b.len() == 0 {
        assert(a =~= b);
    }
}

/// Two names do not stand before each other.
pub proof fn lemma_name_before_asymmetric(a: Seq<u8>, b: Seq<u8>)
    ensures
        !(name_before(a, b) && name_before(b, a)),
    decreases a.len(),
{
    if a.len() > 0 && b.len() > 0 && a[0] == b[0] {
        lemma_name_before_asymmetric(a.drop_first(), b.drop_first());
    }
}

/// What stands before a name stands before all that the name stands before.
pub proof fn lemma_name_before_transitive(a: Seq<u8>, b: Seq<u8>, c: Seq<u8>)
    requires
        name_before(a, b),
        name_before(b, c),
    ensures
        name_before(a, c),
    decreases a.len(),
{
    if a.len() > 0 && a[0] == b[0] && b[0] == c[0] {
        lemma_name_before_transitive(a.drop_first(), b.drop_first(), c.drop_first());
    }
}

/// How `a` stands to `b` in the order of type names.
pub fn name_order(a: &[u8], b: &[u8]) -> (order: NameOrder)
    ensures
        match order {
            NameOrder::Before => name_before(a@, b@),
            NameOrder::Same => a@ == b@,
            NameOrder::After => name_before(b@, a@),
        },
{
    let mut i: usize = 0;
    assert(a@.skip(0) =~= a@ && b@.skip(0) =~= b@);
    while i < a.len() && i < b.len()
        invariant
            i <= a.len(),
            i <= b.len(),
            a@.take(i as int) == b@.take(i as int),
            name_before(a@, b@) == name_before(a@.skip(i as int), b@.skip(i as int)),
            name_before(b@, a@) == name_before(b@.skip(i as int), a@.skip(i as int)),
        decreases a.len() - i,
    {
        let ghost rest_a = a@.skip(i as int);
        let ghost rest_b = b@.skip(i as int);
        assert(rest_a[0] == a@[i as int]);
        assert(rest_b[0] == b@[i as int]);
        if a[i] < b[i] {
            return NameOrder::Before;
        }
        if a[i] > b[i] {
            return NameOrder::After;
        }
        assert(rest_a.drop_first() =~= a@.skip(i + 1));
        assert(rest_b.drop_first() =~= b@.skip(i + 1));
        assert(a@.take(i + 1) =~= a@.take(i as int).push(a@[i as int]));
        assert(b@.take(i + 1) =~= b@.take(i as int).push(b@[i as int]));
        i += 1;
    }
    if i < b.len() {
        NameOrder::Before
    } else if i < a.len() {
        NameOrder::After
    } else {
        assert(a@ =~= a@.take(i as int));
        assert(b@ =~= b@.take(i as int));
        NameOrder::Same
    }
}

/// The byte between the type and the name of a field.
pub const SPACE: u8 = 0x20;

/// The byte between two fields.
pub const COMMA: u8 = 0x2c;

/// The byte before the first field.
pub const PAREN_OPEN: u8 = 0x28;

/// The byte after the last field.
pub const PAREN_CLOSE: u8 = 0x29;

/// One field as it stands in a type string: its type, a space, its name.
pub open spec fn field_signature(field: FieldView) -> Seq<u8> {
    encode_utf8(field.field_type) + seq![SPACE] + encode_utf8(field.name)
}

/// The fields of a struct type as they stand in a type string: one after
/// another, a comma between two.
pub open spec fn fields_signature(fields: Seq<FieldView>) -> Seq<u8>
    decreases fields.len(),
{
    if fields.len() == 0 {
        Seq::empty()
    } else if fields.len() == 1 {
        field_signature(fields[0])
    } else {
        fields_signature(fields.drop_last()) + seq![COMMA] + field_signature(fields.last())
    }
}

/// One struct type as it stands in a type string: its name, then its fields
/// in parentheses.
pub open spec fn struct_signature(ty: StructTypeView) -> Seq<u8> {
    encode_utf8(ty.name) + seq![PAREN_OPEN] + fields_signature(ty.fields) + seq![PAREN_CLOSE]
}

/// Appends `bytes` to `out`.
fn append_bytes(out: &mut Vec<u8>, bytes: &[u8])
    ensures
        final(out)@ == old(out)@ + bytes@,
{
    let mut i: usize = 0;
    assert(out@ =~= old(out)@ + bytes@.take(0));
    while i < bytes.len()
        invariant
            i <= bytes.len(),
            out@ == old(out)@ + bytes@.take(i as int),
        decreases bytes.len() - i,
    {
        out.push(bytes[i]);
        i += 1;
        assert(out@ =~= old(out)@ + bytes@.take(i as int));
    }
    assert(bytes@.take(i as int) =~= bytes@);
}

impl Field {
    /// The field as it stands in a type string.
    pub fn signature(&self) -> (bytes: Vec<u8>)
        ensures
            bytes@ == field_signature(self@),
    {
        let mut bytes: Vec<u8> = Vec::new();
        append_bytes(&mut bytes, self.field_type.as_str().as_bytes());
        bytes.push(SPACE);
        append_bytes(&mut bytes, self.name.as_str().as_bytes());
        assert(bytes@ =~= field_signature(self@));
        bytes
    }
}

impl StructType {
    /// The struct type as it stands in a type string.
    pub fn signature(&self) -> (bytes: Vec<u8>)
        ensures
            bytes@ == struct_signature(self@),
    {
        let ghost fields = self@.fields;
        let mut list: Vec<u8> = Vec::new();
        let mut i: usize = 0;
        assert(fields.take(0) =~= Seq::<FieldView>::empty());
        while i < self.fields.len()
            invariant
                i <= self.fields.len(),
                fields == self@.fields,
                list@ == fields_signature(fields.take(i as int)),
            decreases self.fields.len() - i,
        {
            if i > 0 {
                list.push(COMMA);
            }
            let field = self.fields[i].signature();
            append_bytes(&mut list, field.as_slice());
            proof {
                let next = fields.take(i + 1);
                assert(next.drop_last() =~= fields.take(i as int));
                assert(next.last() == self.fields@[i as int]@);
                if i == 0 {
                    assert(list@ =~= field_signature(next[0]));
                }
            }
            i += 1;
        }
        assert(fields.take(i as int) =~= fields);
        let mut bytes: Vec<u8> = Vec::new();
        append_bytes(&mut bytes, self.name.as_str().as_bytes());
        bytes.push(PAREN_OPEN);
        append_bytes(&mut bytes, list.as_slice());
        bytes.push(PAREN_CLOSE);
        assert(bytes@ =~= struct_signature(self@));
        bytes
    }
}

/// Why a type string was not built.
#[derive(Clone, Copy, Debug, PartialEq, Eq)]
pub enum TypeError {
    /// The referenced type at `index` has the name of the primary type, and
    /// none before it has.
    PrimaryRepeated { index: usize },
    /// The referenced types at `first` and `second` have the same name, and
    /// the names before `second` are distinct.
    DuplicateName { first: usize, second: usize },
}

/// The views of a sequence of struct types.
pub open spec fn struct_views(types: Seq<StructType>) -> Seq<StructTypeView> {
    types.map_values(|t: StructType| t@)
}

/// The names of a sequence of struct types, as UTF-8 bytes.
pub open spec fn type_names(types: Seq<StructTypeView>) -> Seq<Seq<u8>> {
    types.map_values(|t: StructTypeView| encode_utf8(t.name))
}

/// Whether no name occurs twice.
pub open spec fn distinct_names(names: Seq<Seq<u8>>) -> bool {
    forall|i: int, j: int| 0 <= i < j < names.len() ==> names[i] != names[j]
}

/// Whether `position` stands somewhere in `order`.
pub open spec fn stands_in(order: Seq<usize>, position: int) -> bool {
    exists|k: int| 0 <= k < order.len() && #[trigger] order[k] == position
}

/// Whether `order` lists the positions of `names` in ascending order of
/// name: every position once, each name before the next.
pub open spec fn canonical_order(names: Seq<Seq<u8>>, order: Seq<usize>) -> bool {
    &&& order.len() == names.len()
    &&& forall|k: int| 0 <= k < order.len() ==> (#[trigger] order[k]) < names.len()
    &&& forall|k: int, l: int|
        #![trigger order[k], order[l]]
        0 <= k < l < order.len() ==> name_before(names[order[k] as int], names[order[l] as int])
    &&& forall|i: int| 0 <= i < names.len() ==> #[trigger] stands_in(order, i)
}

/// Names that can be listed in ascending order are distinct.
pub proof fn lemma_canonical_order_distinct(names: Seq<Seq<u8>>, order: Seq<usize>)
    requires
        canonical_order(names, order),
    ensures
        distinct_names(names),
{
    assert forall|i: int, j: int| 0 <= i < j < names.len() implies names[i] != names[j] by {
        assert(stands_in(order, i) && stands_in(order, j));
        let k = choose|k: int| 0 <= k < order.len() && #[trigger] order[k] == i;
        let l = choose|l: int| 0 <= l < order.len() && #[trigger] order[l] == j;
        if k < l {
            assert(name_before(names[order[k] as int], names[order[l] as int]));
        } else {
            assert(name_before(names[order[l] as int], names[order[k] as int]));
        }
        lemma_name_before_irreflexive(names[i]);
    }
}

/// A position occurs once in an ascending order.
proof fn lemma_canonical_order_injective(names: Seq<Seq<u8>>, order: Seq<usize>, k: int, l: int)
    requires
        canonical_order(names, order),
        0 <= k < order.len(),
        0 <= l < order.len(),
        order[k] == order[l],
    ensures
        k == l,
{
    lemma_name_before_irreflexive(names[order[k] as int]);
    if k < l {
        assert(name_before(names[order[k] as int], names[order[l] as int]));
    } else if l < k {
        assert(name_before(names[order[l] as int], names[order[k] as int]));
    }
}

/// Two ascending orders of the same names agree on their first `upto`
/// places.
proof fn lemma_canonical_orders_agree(
    names: Seq<Seq<u8>>,
    x: Seq<usize>,
    y: Seq<usize>,
    upto: int,
)
    requires
        canonical_order(names, x),
        canonical_order(names, y),
        0 <= upto <= names.len(),
    ensures
        forall|k: int| 0 <= k < upto ==> x[k] == y[k],
    decreases upto,
{
    if upto > 0 {
        let k = upto - 1;
        lemma_canonical_orders_agree(names, x, y, k);
        let i = x[k] as int;
        let j = y[k] as int;
        assert(stands_in(y, i) && stands_in(x, j));
        // where `i` stands in `y`, and where `j` stands in `x`
        let l = choose|l: int| 0 <= l < y.len() && #[trigger] y[l] == i;
        let m = choose|m: int| 0 <= m < x.len() && #[trigger] x[m] == j;
        if l < k {
            assert(x[l] == y[l]);
            lemma_canonical_order_injective(names, x, l, k);
        }
        if m < k {
            assert(x[m] == y[m]);
            lemma_canonical_order_injective(names, y, m, k);
        }
        if l > k && m > k {
            assert(name_before(names[y[k] as int], names[y[l] as int]));
            assert(name_before(names[x[k] as int], names[x[m] as int]));
            lemma_name_before_asymmetric(names[i], names[j]);
        }
        if l > k && m == k {
            assert(name_before(names[y[k] as int], names[y[l] as int]));
            lemma_name_before_irreflexive(names[i]);
        }
    }
}

/// Names have at most one ascending order.
pub proof fn lemma_canonical_order_unique(names: Seq<Seq<u8>>, x: Seq<usize>, y: Seq<usize>)
    requires
        canonical_order(names, x),
        canonical_order(names, y),
    ensures
        x == y,
{
    lemma_canonical_orders_agree(names, x, y, names.len() as int);
    assert(x =~= y);
}

/// Placing the next position into an ascending order of the positions before
/// it, behind the names that stand before its name and in front of the
/// others, gives an ascending order again.
proof fn lemma_insert_keeps_order(names: Seq<Seq<u8>>, order: Seq<usize>, place: int, next: usize)
    requires
        next < names.len(),
        canonical_order(names.take(next as int), order),
        0 <= place <= order.len(),
        forall|k: int|
            0 <= k < place ==> name_before(names[(#[trigger] order[k]) as int], names[next as int]),
        place < order.len() ==> name_before(names[next as int], names[order[place] as int]),
    ensures
        canonical_order(names.take(next + 1), order.insert(place, next)),
{
    let before = names.take(next as int);
    let after = names.take(next + 1);
    let grown = order.insert(place, next);
    order.insert_ensures(place, next);
    assert forall|k: int, l: int|
        #![trigger grown[k], grown[l]]
        0 <= k < l < grown.len() implies name_before(
        after[grown[k] as int],
        after[grown[l] as int],
    ) by {
        if l < place {
            assert(name_before(before[order[k] as int], before[order[l] as int]));
        } else if l == place {
            assert(grown[k] == order[k]);
        } else {
            assert(grown[l] == order[l - 1]);
            if k < place {
                assert(name_before(before[order[k] as int], before[order[l - 1] as int]));
            } else if k == place {
                if l - 1 > place {
                    assert(name_before(before[order[place] as int], before[order[l - 1] as int]));
                    lemma_name_before_transitive(
                        names[next as int],
                        names[order[place] as int],
                        names[order[l - 1] as int],
                    );
                }
            } else {
                assert(grown[k] == order[k - 1]);
                assert(name_before(before[order[k - 1] as int], before[order[l - 1] as int]));
            }
        }
    }
    assert forall|i: int| 0 <= i < after.len() implies #[trigger] stands_in(grown, i) by {
        if i == next {
            assert(grown[place] == i);
        } else {
            assert(stands_in(order, i));
            let k = choose|k: int| 0 <= k < order.len() && #[trigger] order[k] == i;
            if k < place {
                assert(grown[k] == i);
            } else {
                assert(grown[k + 1] == i);
            }
        }
    }
    assert forall|k: int| 0 <= k < grown.len() implies (#[trigger] grown[k]) < after.len() by {
        if k < place {
            assert(grown[k] == order[k]);
        } else if k > place {
            assert(grown[k] == order[k - 1]);
        }
    }
}

/// The positions of the types in ascending order of name. Fails where two
/// types have the same name.
pub fn order_by_name(types: &[StructType]) -> (result: Result<Vec<usize>, TypeError>)
    ensures
        match result {
            Ok(order) => canonical_order(type_names(struct_views(types@)), order@),
            Err(TypeError::DuplicateName { first, second }) => {
                let names = type_names(struct_views(types@));
                &&& first < second < names.len()
                &&& names[first as int] == names[second as int]
                &&& distinct_names(names.take(second as int))
            },
            Err(TypeError::PrimaryRepeated { .. }) => false,
        },
{
    let ghost names = type_names(struct_views(types@));
    let mut order: Vec<usize> = Vec::new();
    let mut next: usize = 0;
    assert(canonical_order(names.take(0), order@));
    while next < types.len()
        invariant
            next <= types.len(),
            names == type_names(struct_views(types@)),
            canonical_order(names.take(next as int), order@),
        decreases types.len() - next,
    {
        let name = types[next].name.as_str().as_bytes();
        assert(name@ == names[next as int]);
        let mut place: usize = 0;
        let mut placed = false;
        while place < order.len() && !placed
            invariant
                next < types.len(),
                names == type_names(struct_views(types@)),
                name@ == names[next as int],
                canonical_order(names.take(next as int), order@),
                place <= order.len(),
                forall|k: int|
                    0 <= k < place ==> name_before(
                        names[(#[trigger] order@[k]) as int],
                        names[next as int],
                    ),
                placed ==> place < order.len() && name_before(
                    names[next as int],
                    names[order@[place as int] as int],
                ),
            decreases order.len() - place + (if placed { 0int } else { 1int }),
        {
            let other = order[place];
            assert(other < next);
            assert(names.take(next as int)[other as int] == names[other as int]);
            match name_order(name, types[other].name.as_str().as_bytes()) {
                NameOrder::Before => {
                    placed = true;
                },
                NameOrder::Same => {
                    proof {
                        lemma_canonical_order_distinct(names.take(next as int), order@);
                    }
                    return Err(TypeError::DuplicateName { first: other, second: next });
                },
                NameOrder::After => {
                    place += 1;
                },
            }
        }
        proof {
            lemma_insert_keeps_order(names, order@, place as int, next);
        }
        order.insert(place, next);
        next += 1;
    }
    assert(names.take(next as int) =~= names);
    Ok(order)
}

/// The ascending order of `names`, where they have one.
pub open spec fn order_of(names: Seq<Seq<u8>>) -> Seq<usize> {
    choose|order: Seq<usize>| canonical_order(names, order)
}

/// The signatures of the types at the positions that `order` lists, one
/// after another.
pub open spec fn signatures_in_order(types: Seq<StructTypeView>, order: Seq<usize>) -> Seq<u8>
    decreases order.len(),
{
    if order.len() == 0 {
        Seq::empty()
    } else {
        signatures_in_order(types, order.drop_last()) + struct_signature(
            types[order.last() as int],
        )
    }
}

/// The canonical type string: the signature of the primary type, then the
/// signatures of the referenced types in ascending order of name.
pub open spec fn type_string(primary: StructTypeView, referenced: Seq<StructTypeView>) -> Seq<u8> {
    struct_signature(primary) + signatures_in_order(referenced, order_of(type_names(referenced)))
}

/// Whether a type string can be built: no referenced type has the name of
/// the primary type, and no two referenced types have the same name.
pub open spec fn well_named(primary: StructTypeView, referenced: Seq<StructTypeView>) -> bool {
    &&& forall|i: int|
        0 <= i < referenced.len() ==> (#[trigger] type_names(referenced)[i]) != encode_utf8(
            primary.name,
        )
    &&& distinct_names(type_names(referenced))
}

/// Whether `error` is what is wrong with the names: the first referenced
/// type that repeats the primary type's name, or else the first one that
/// repeats the name of a referenced type before it, with that type.
pub open spec fn naming_error(
    primary: StructTypeView,
    referenced: Seq<StructTypeView>,
    error: TypeError,
) -> bool {
    let names = type_names(referenced);
    let primary_name = encode_utf8(primary.name);
    match error {
        TypeError::PrimaryRepeated { index } => {
            &&& index < names.len()
            &&& names[index as int] == primary_name
            &&& forall|j: int| 0 <= j < index ==> (#[trigger] names[j]) != primary_name
        },
        TypeError::DuplicateName { first, second } => {
            &&& forall|j: int| 0 <= j < names.len() ==> (#[trigger] names[j]) != primary_name
            &&& first < second < names.len()
            &&& names[first as int] == names[second as int]
            &&& distinct_names(names.take(second as int))
        },
    }
}

/// The position of the first referenced type that has the name of the
/// primary type.
fn find_primary(primary: &StructType, referenced: &[StructType]) -> (found: Option<usize>)
    ensures
        match found {
            Some(index) => naming_error(
                primary@,
                struct_views(referenced@),
                TypeError::PrimaryRepeated { index },
            ),
            None => forall|j: int|
                0 <= j < referenced@.len() ==> (#[trigger] type_names(
                    struct_views(referenced@),
                )[j]) != encode_utf8(primary@.name),
        },
{
    let ghost names = type_names(struct_views(referenced@));
    let name = primary.name.as_str().as_bytes();
    let mut i: usize = 0;
    while i < referenced.len()
        invariant
            i <= referenced.len(),
            names == type_names(struct_views(referenced@)),
            name@ == encode_utf8(primary@.name),
            forall|j: int| 0 <= j < i ==> (#[trigger] names[j]) != name@,
        decreases referenced.len() - i,
    {
        let other = referenced[i].name.as_str().as_bytes();
        assert(other@ == names[i as int]);
        match name_order(other, name) {
            NameOrder::Same => {
                return Some(i);
            },
            NameOrder::Before => {
                proof {
                    lemma_name_before_irreflexive(name@);
                }
            },
            NameOrder::After => {
                proof {
                    lemma_name_before_irreflexive(name@);
                }
            },
        }
        i += 1;
    }
    None
}

/// The canonical type string of `primary`, given the struct types that it
/// refers to, directly or through one another, in any order. Fails where a
/// referenced type has the name of the primary type or of another referenced
/// type.
pub fn encode_type(primary: &StructType, referenced: &[StructType]) -> (result: Result<
    Vec<u8>,
    TypeError,
>)
    ensures
        match result {
            Ok(bytes) => {
                &&& well_named(primary@, struct_views(referenced@))
                &&& bytes@ == type_string(primary@, struct_views(referenced@))
            },
            Err(error) => naming_error(primary@, struct_views(referenced@), error),
        },
{
    let ghost views = struct_views(referenced@);
    let ghost names = type_names(views);
    if let Some(index) = find_primary(primary, referenced) {
        return Err(TypeError::PrimaryRepeated { index });
    }
    let order = match order_by_name(referenced) {
        Ok(order) => order,
        Err(error) => {
            return Err(error);
        },
    };
    proof {
        lemma_canonical_order_distinct(names, order@);
        lemma_canonical_order_unique(names, order@, order_of(names));
    }
    let mut bytes = primary.signature();
    let mut k: usize = 0;
    assert(bytes@ =~= struct_signature(primary@) + signatures_in_order(views, order@.take(0)));
    while k < order.len()
        invariant
            k <= order.len(),
            views == struct_views(referenced@),
            canonical_order(type_names(views), order@),
            bytes@ == struct_signature(primary@) + signatures_in_order(
                views,
                order@.take(k as int),
            ),
        decreases order.len() - k,
    {
        let position = order[k];
        let signature = referenced[position].signature();
        append_bytes(&mut bytes, signature.as_slice());
        proof {
            let next = order@.take(k + 1);
            assert(next.drop_last() =~= order@.take(k as int));
            assert(next.last() == position);
            assert(bytes@ =~= struct_signature(primary@) + signatures_in_order(views, next));
        }
        k += 1;
    }
    assert(order@.take(k as int) =~= order@);
    Ok(bytes)
}

/// The type hash of `primary`: the Keccak-256 digest of its canonical type
/// string.
pub fn type_hash(primary: &StructType, referenced: &[StructType]) -> (result: Result<
    [u8; 32],
    TypeError,
>)
    ensures
        match result {
            Ok(digest) => {
                &&& well_named(primary@, struct_views(referenced@))
                &&& digest@ == keccak256(type_string(primary@, struct_views(referenced@)))@
            },
            Err(error) => naming_error(primary@, struct_views(referenced@), error),
        },
{
    match encode_type(primary, referenced) {
        Ok(bytes) => Ok(keccak256_array(bytes.as_slice())),
        Err(error) => Err(error),
    }
}

} // verus!
