//! Whether a document's links are sound: every item names itself, every child
//! and every parent resolves, and every parent lists the child that claims it.
//!
//! A coordinator merges documents additively and walks them by these links, so
//! a link written in one direction only is an item it silently loses.

use vstd::prelude::*;
use vstd::hash_set::StringHashSet;
use crate::proto::document::v1::{BaseTextItem, BaseTextItemModel, Document, DocumentModel,
    GroupItem, GroupItemModel, PictureItem, PictureItemModel, RefItem, RefItemModel, TableItem,
    TableItemModel, TextItemBase, TextItemBaseModel};
use crate::proto::document::v1::base_text_item::{Item, ItemModel};
use crate::text::{cat2, cat3, cat5, comes_before, lemma_precedes_is_strict,
    lemma_precedes_is_total, lemma_precedes_is_transitive, precedes, same};

verus! {

/// The link fields of one item.
#[verifier::ext_equal]
pub struct Links {
    /// The item's own reference.
    pub self_ref: Seq<char>,
    /// The items it contains.
    pub children: Seq<RefItemModel>,
    /// Its container.
    pub parent: Option<RefItemModel>,
}

/// The link fields of a text's base.
pub open spec fn base_links(base: Option<TextItemBaseModel>) -> Option<Links> {
    match base {
        Some(base) => Some(
            Links { self_ref: base.self_ref, children: base.children, parent: base.parent },
        ),
        None => None,
    }
}

/// The link fields of a text, whichever variant it is. A code item carries
/// them itself; the other variants carry them in a base.
pub open spec fn text_links(item: BaseTextItemModel) -> Option<Links> {
    match item.item {
        None => None,
        Some(ItemModel::Title(value)) => base_links(value.base),
        Some(ItemModel::SectionHeader(value)) => base_links(value.base),
        Some(ItemModel::ListItem(value)) => base_links(value.base),
        Some(ItemModel::Formula(value)) => base_links(value.base),
        Some(ItemModel::Text(value)) => base_links(value.base),
        Some(ItemModel::FieldHeading(value)) => base_links(value.base),
        Some(ItemModel::FieldValue(value)) => base_links(value.base),
        Some(ItemModel::Code(value)) => Some(
            Links { self_ref: value.self_ref, children: value.children, parent: value.parent },
        ),
    }
}

/// The link fields of a group.
pub open spec fn group_links(group: GroupItemModel) -> Option<Links> {
    Some(Links { self_ref: group.self_ref, children: group.children, parent: group.parent })
}

/// The link fields of a picture.
pub open spec fn picture_links(picture: PictureItemModel) -> Option<Links> {
    Some(Links { self_ref: picture.self_ref, children: picture.children, parent: picture.parent })
}

/// The link fields of a table.
pub open spec fn table_links(table: TableItemModel) -> Option<Links> {
    Some(Links { self_ref: table.self_ref, children: table.children, parent: table.parent })
}

/// The link fields of every item of a document: groups, texts, pictures,
/// tables. A text whose variant is unset has none.
pub open spec fn items_of(document: DocumentModel) -> Seq<Option<Links>> {
    document.groups.map_values(|group: GroupItemModel| group_links(group))
        + document.texts.map_values(|item: BaseTextItemModel| text_links(item))
        + document.pictures.map_values(|picture: PictureItemModel| picture_links(picture))
        + document.tables.map_values(|table: TableItemModel| table_links(table))
}

/// Whether an item names itself.
pub open spec fn is_named(item: Option<Links>) -> bool {
    item matches Some(links) && links.self_ref.len() > 0
}

/// Everything a reference can resolve to: the two roots and every item that
/// names itself.
pub open spec fn known(items: Seq<Option<Links>>) -> Set<Seq<char>>
    decreases items.len(),
{
    if items.len() == 0 {
        Set::empty().insert("#/body"@).insert("#/furniture"@)
    } else if is_named(items.last()) {
        known(items.drop_last()).insert(items.last()->Some_0.self_ref)
    } else {
        known(items.drop_last())
    }
}

/// What is wrong with one item by itself, beside those before it.
pub open spec fn item_error(before: Seq<Option<Links>>, item: Option<Links>) -> Seq<Seq<char>> {
    match item {
        None => seq!["text item with unset variant"@],
        Some(links) => if links.self_ref.len() == 0 {
            seq!["item with empty self_ref"@]
        } else if known(before).contains(links.self_ref) {
            seq!["duplicate self_ref "@ + links.self_ref]
        } else {
            Seq::empty()
        },
    }
}

/// What is wrong with the items by themselves.
pub open spec fn item_errors(items: Seq<Option<Links>>) -> Seq<Seq<char>>
    decreases items.len(),
{
    if items.len() == 0 {
        Seq::empty()
    } else {
        item_errors(items.drop_last()) + item_error(items.drop_last(), items.last())
    }
}

/// A child listed by a container.
#[verifier::ext_equal]
pub struct Listing {
    /// The container.
    pub parent: Seq<char>,
    /// The child.
    pub child: Seq<char>,
}

/// The children that one container lists.
pub open spec fn listings(parent: Seq<char>, children: Seq<RefItemModel>) -> Seq<Listing> {
    Seq::new(children.len(), |i: int| Listing { parent, child: children[i].reference })
}

/// The children that a root lists.
pub open spec fn root_listings(root: Seq<char>, group: Option<GroupItemModel>) -> Seq<Listing> {
    match group {
        Some(group) => listings(root, group.children),
        None => Seq::empty(),
    }
}

/// The children that the items list.
pub open spec fn item_listings(items: Seq<Option<Links>>) -> Seq<Listing>
    decreases items.len(),
{
    if items.len() == 0 {
        Seq::empty()
    } else if is_named(items.last()) {
        item_listings(items.drop_last()) + listings(
            items.last()->Some_0.self_ref,
            items.last()->Some_0.children,
        )
    } else {
        item_listings(items.drop_last())
    }
}

/// The children that all containers of a document list.
pub open spec fn all_listings(document: DocumentModel) -> Seq<Listing> {
    root_listings("#/body"@, document.body) + root_listings("#/furniture"@, document.furniture)
        + item_listings(items_of(document))
}

/// Whether one listing comes before another: by container, then by child.
pub open spec fn listed_before(a: Listing, b: Listing) -> bool {
    precedes(a.parent, b.parent) || (a.parent == b.parent && precedes(a.child, b.child))
}

/// Whether listings are in order, without a repeat.
pub open spec fn ascending(listings: Seq<Listing>) -> bool {
    forall|i: int, j: int|
        0 <= i < j < listings.len() ==> listed_before(#[trigger] listings[i], #[trigger] listings[j])
}

/// Whether a sequence holds the given listings in order, each once.
pub open spec fn orders(ordered: Seq<Listing>, listings: Seq<Listing>) -> bool {
    &&& ascending(ordered)
    &&& forall|listing: Listing| ordered.contains(listing) <==> #[trigger] listings.contains(
        listing,
    )
}

/// The given listings in order, each once.
pub open spec fn in_order(listings: Seq<Listing>) -> Seq<Listing> {
    choose|ordered: Seq<Listing>| orders(ordered, listings)
}

/// The children among the first `k` listings that do not resolve.
pub open spec fn child_errors(
    ordered: Seq<Listing>,
    known: Set<Seq<char>>,
    k: int,
) -> Seq<Seq<char>>
    decreases k,
{
    if k <= 0 {
        Seq::empty()
    } else if known.contains(ordered[k - 1].child) {
        child_errors(ordered, known, k - 1)
    } else {
        child_errors(ordered, known, k - 1).push(
            "child "@ + ordered[k - 1].child + " of "@ + ordered[k - 1].parent
                + " does not resolve"@,
        )
    }
}

/// The parents that the items claim, each as the listing that should answer
/// it.
pub open spec fn claims(items: Seq<Option<Links>>) -> Seq<Listing>
    decreases items.len(),
{
    if items.len() == 0 {
        Seq::empty()
    } else if is_named(items.last()) && items.last()->Some_0.parent is Some {
        claims(items.drop_last()).push(
            Listing {
                parent: items.last()->Some_0.parent->Some_0.reference,
                child: items.last()->Some_0.self_ref,
            },
        )
    } else {
        claims(items.drop_last())
    }
}

/// What is wrong with the first `k` claims: the parent does not resolve, or
/// does not list the item.
pub open spec fn parent_errors(
    claims: Seq<Listing>,
    known: Set<Seq<char>>,
    listings: Seq<Listing>,
    k: int,
) -> Seq<Seq<char>>
    decreases k,
{
    if k <= 0 {
        Seq::empty()
    } else if !known.contains(claims[k - 1].parent) {
        parent_errors(claims, known, listings, k - 1).push(
            "parent "@ + claims[k - 1].parent + " of "@ + claims[k - 1].child
                + " does not resolve"@,
        )
    } else if !listings.contains(claims[k - 1]) {
        parent_errors(claims, known, listings, k - 1).push(
            "parent "@ + claims[k - 1].parent + " does not list "@ + claims[k - 1].child
                + " as a child"@,
        )
    } else {
        parent_errors(claims, known, listings, k - 1)
    }
}

/// What is wrong with a root by itself.
pub open spec fn root_errors(root: Seq<char>, group: Option<GroupItemModel>) -> Seq<Seq<char>> {
    match group {
        None => seq![root + " is missing"@],
        Some(group) => if group.self_ref != root {
            seq![root + " carries self_ref "@ + group.self_ref]
        } else {
            Seq::empty()
        },
    }
}

/// Everything that is wrong with the links of a document: the roots, the
/// items, the listed children, the claimed parents.
pub open spec fn faults(document: DocumentModel) -> Seq<Seq<char>> {
    let items = items_of(document);
    let listed = all_listings(document);
    let ordered = in_order(listed);
    let claimed = claims(items);
    root_errors("#/body"@, document.body) + root_errors("#/furniture"@, document.furniture)
        + item_errors(items) + child_errors(ordered, known(items), ordered.len() as int)
        + parent_errors(claimed, known(items), listed, claimed.len() as int)
}

/// No listing comes before itself.
proof fn lemma_strict(a: Listing)
    ensures
        !listed_before(a, a),
{
    lemma_precedes_is_strict(a.parent);
    lemma_precedes_is_strict(a.child);
}

/// The order of listings is transitive.
proof fn lemma_transitive(a: Listing, b: Listing, c: Listing)
    requires
        listed_before(a, b),
        listed_before(b, c),
    ensures
        listed_before(a, c),
{
    if precedes(a.parent, b.parent) && precedes(b.parent, c.parent) {
        lemma_precedes_is_transitive(a.parent, b.parent, c.parent);
    } else if a.parent == b.parent && b.parent == c.parent && !precedes(a.parent, b.parent)
        && !precedes(b.parent, c.parent) {
        lemma_precedes_is_transitive(a.child, b.child, c.child);
    }
}

/// Of two different listings one comes before the other.
proof fn lemma_total(a: Listing, b: Listing)
    requires
        a != b,
    ensures
        listed_before(a, b) || listed_before(b, a),
{
    if a.parent != b.parent {
        lemma_precedes_is_total(a.parent, b.parent);
    } else {
        assert(a.child != b.child) by {
            if a.child == b.child {
                assert(a =~= b);
            }
        }
        lemma_precedes_is_total(a.child, b.child);
    }
}

/// The last of ascending listings does not occur before it.
proof fn lemma_last_is_new(listings: Seq<Listing>)
    requires
        ascending(listings),
        listings.len() > 0,
    ensures
        !listings.drop_last().contains(listings.last()),
        ascending(listings.drop_last()),
{
    if listings.drop_last().contains(listings.last()) {
        let i = choose|i: int|
            0 <= i < listings.len() - 1 && listings.drop_last()[i] == listings.last();
        assert(listed_before(listings[i], listings[listings.len() - 1]));
        lemma_strict(listings.last());
    }
    assert forall|i: int, j: int| 0 <= i < j < listings.drop_last().len() implies listed_before(
        #[trigger] listings.drop_last()[i],
        #[trigger] listings.drop_last()[j],
    ) by {
        assert(listed_before(listings[i], listings[j]));
    }
}

/// Ascending listings are settled by what they hold.
pub proof fn lemma_order_is_settled(a: Seq<Listing>, b: Seq<Listing>)
    requires
        ascending(a),
        ascending(b),
        forall|listing: Listing| a.contains(listing) <==> #[trigger] b.contains(listing),
    ensures
        a == b,
    decreases a.len(),
{
    if a.len() == 0 {
        if b.len() > 0 {
            assert(b.contains(b[0]));
            assert(a.contains(b[0]));
        }
        assert(a =~= b);
    } else {
        assert(a.contains(a.last()));
        assert(b.contains(a.last()));
        assert(b.contains(b.last()));
        assert(a.contains(b.last()));
        let i = choose|i: int| 0 <= i < a.len() && a[i] == b.last();
        let j = choose|j: int| 0 <= j < b.len() && b[j] == a.last();
        assert(a.last() == b.last()) by {
            if a.last() != b.last() {
                assert(listed_before(a[i], a[a.len() - 1]));
                assert(listed_before(b[j], b[b.len() - 1]));
                lemma_transitive(a.last(), b.last(), a.last());
                lemma_strict(a.last());
            }
        }
        lemma_last_is_new(a);
        lemma_last_is_new(b);
        assert(a =~= a.drop_last().push(a.last()));
        assert(b =~= b.drop_last().push(b.last()));
        assert forall|listing: Listing|
            a.drop_last().contains(listing) <==> #[trigger] b.drop_last().contains(listing) by {
            assert(b.contains(listing) <==> a.contains(listing));
            lemma_contains_drop_last(a, listing);
            lemma_contains_drop_last(b, listing);
        }
        lemma_order_is_settled(a.drop_last(), b.drop_last());
    }
}

/// What a sequence holds is what it holds without its last item, and that item.
proof fn lemma_contains_drop_last(listings: Seq<Listing>, listing: Listing)
    requires
        listings.len() > 0,
    ensures
        listings.contains(listing) <==> (listings.drop_last().contains(listing) || listing
            == listings.last()),
{
    if listings.contains(listing) {
        let i = choose|i: int| 0 <= i < listings.len() && listings[i] == listing;
        if i < listings.len() - 1 {
            assert(listings.drop_last()[i] == listing);
        }
    }
    if listings.drop_last().contains(listing) {
        let i = choose|i: int|
            0 <= i < listings.drop_last().len() && listings.drop_last()[i] == listing;
        assert(listings[i] == listing);
    }
    if listing == listings.last() {
        assert(listings[listings.len() - 1] == listing);
    }
}

/// A sequence that orders listings is their order.
proof fn lemma_in_order(ordered: Seq<Listing>, listings: Seq<Listing>)
    requires
        orders(ordered, listings),
    ensures
        in_order(listings) == ordered,
{
    let chosen = in_order(listings);
    assert(orders(chosen, listings));
    assert forall|listing: Listing| chosen.contains(listing) <==> #[trigger] ordered.contains(
        listing,
    ) by {
        assert(listings.contains(listing) <==> chosen.contains(listing));
    }
    lemma_order_is_settled(chosen, ordered);
}

/// A child listed by a container.
struct Listed {
    parent: String,
    child: String,
}

impl DeepView for Listed {
    type V = Listing;

    closed spec fn deep_view(&self) -> Listing {
        Listing { parent: self.parent@, child: self.child@ }
    }
}

/// Whether one listing comes before another.
fn sorts_before(listed: &Listed, parent: &str, child: &str) -> (r: bool)
    ensures
        r == listed_before(listed.deep_view(), Listing { parent: parent@, child: child@ }),
{
    if comes_before(&listed.parent, parent) {
        return true;
    }
    same(&listed.parent, parent) && comes_before(&listed.child, child)
}

/// The number of listings that come before a given one.
fn place_of(sorted: &Vec<Listed>, parent: &str, child: &str) -> (r: usize)
    requires
        ascending(sorted.deep_view()),
    ensures
        r <= sorted@.len(),
        forall|i: int|
            0 <= i < r ==> listed_before(
                #[trigger] sorted.deep_view()[i],
                Listing { parent: parent@, child: child@ },
            ),
        forall|i: int|
            r <= i < sorted@.len() ==> !listed_before(
                #[trigger] sorted.deep_view()[i],
                Listing { parent: parent@, child: child@ },
            ),
{
    let ghost models = sorted.deep_view();
    let ghost target = Listing { parent: parent@, child: child@ };
    let mut low: usize = 0;
    let mut high: usize = sorted.len();
    while low < high
        invariant
            models == sorted.deep_view(),
            ascending(models),
            target == (Listing { parent: parent@, child: child@ }),
            low <= high <= sorted@.len(),
            forall|i: int| 0 <= i < low ==> listed_before(#[trigger] models[i], target),
            forall|i: int|
                high <= i < sorted@.len() ==> !listed_before(#[trigger] models[i], target),
        decreases high - low,
    {
        let middle: usize = low + (high - low) / 2;
        proof {
            assert(models[middle as int] == sorted@[middle as int].deep_view());
        }
        if sorts_before(&sorted[middle], parent, child) {
            proof {
                assert forall|i: int| 0 <= i <= middle implies listed_before(
                    #[trigger] models[i],
                    target,
                ) by {
                    if i < middle {
                        assert(listed_before(models[i], models[middle as int]));
                        lemma_transitive(models[i], models[middle as int], target);
                    }
                }
            }
            low = middle + 1;
        } else {
            proof {
                assert forall|i: int| middle <= i < sorted@.len() implies !listed_before(
                    #[trigger] models[i],
                    target,
                ) by {
                    if i > middle && listed_before(models[i], target) {
                        assert(listed_before(models[middle as int], models[i]));
                        lemma_transitive(models[middle as int], models[i], target);
                    }
                }
            }
            high = middle;
        }
    }
    low
}

/// Whether a listing is among sorted ones.
fn is_listed(sorted: &Vec<Listed>, parent: &str, child: &str) -> (r: bool)
    requires
        ascending(sorted.deep_view()),
    ensures
        r == sorted.deep_view().contains(Listing { parent: parent@, child: child@ }),
{
    let ghost models = sorted.deep_view();
    let ghost target = Listing { parent: parent@, child: child@ };
    let place: usize = place_of(sorted, parent, child);
    proof {
        if models.contains(target) {
            let i = choose|i: int| 0 <= i < models.len() && models[i] == target;
            lemma_strict(target);
            assert(place <= i);
            if place < i {
                assert(listed_before(models[place as int], models[i]));
            }
        }
    }
    if place == sorted.len() {
        return false;
    }
    proof {
        assert(models[place as int] == sorted@[place as int].deep_view());
    }
    let r: bool = same(&sorted[place].parent, parent) && same(&sorted[place].child, child);
    proof {
        assert(r == (models[place as int] =~= target));
    }
    r
}

/// Add a listing to sorted ones, unless it is there.
fn add_listing(sorted: &mut Vec<Listed>, parent: &str, child: &str, Ghost(listings): Ghost<
    Seq<Listing>,
>)
    requires
        orders(old(sorted).deep_view(), listings),
    ensures
        orders(
            final(sorted).deep_view(),
            listings.push(Listing { parent: parent@, child: child@ }),
        ),
{
    let ghost before = sorted.deep_view();
    let ghost target = Listing { parent: parent@, child: child@ };
    let place: usize = place_of(sorted, parent, child);
    let present: bool = is_listed(sorted, parent, child);
    if present {
        proof {
            assert forall|listing: Listing| before.contains(listing) <==> #[trigger] listings.push(
                target,
            ).contains(listing) by {
                lemma_contains_push(listings, target, listing);
                assert(listings.contains(listing) <==> before.contains(listing));
                assert(listings.contains(target) <==> before.contains(target));
            }
        }
        return;
    }
    sorted.insert(place, Listed { parent: parent.to_owned(), child: child.to_owned() });
    proof {
        assert(sorted.deep_view() =~= before.insert(place as int, target));
        lemma_insert(before, place as int, target, listings);
    }
}

/// Inserting a new listing at its place keeps the order.
proof fn lemma_insert(before: Seq<Listing>, place: int, target: Listing, listings: Seq<Listing>)
    requires
        orders(before, listings),
        0 <= place <= before.len(),
        forall|i: int| 0 <= i < place ==> listed_before(#[trigger] before[i], target),
        forall|i: int|
            place <= i < before.len() ==> !listed_before(#[trigger] before[i], target),
        !before.contains(target),
    ensures
        orders(before.insert(place, target), listings.push(target)),
{
    let after = before.insert(place, target);
    assert forall|i: int, j: int| 0 <= i < j < after.len() implies listed_before(
        #[trigger] after[i],
        #[trigger] after[j],
    ) by {
        let from = if i < place { i } else { i - 1 };
        let to = if j < place { j } else { j - 1 };
        if i != place && j != place {
            assert(listed_before(before[from], before[to]));
        } else if j == place {
            assert(listed_before(before[i], target));
        } else {
            assert(before.contains(before[to]));
            lemma_total(target, before[to]);
        }
    }
    assert forall|listing: Listing| after.contains(listing) <==> #[trigger] listings.push(
        target,
    ).contains(listing) by {
        lemma_contains_push(listings, target, listing);
        lemma_contains_insert(before, place, target, listing);
        assert(listings.contains(listing) <==> before.contains(listing));
    }
}

/// Ascending listings part at a place: those in front of it come before a
/// given one, and the others do not.
proof fn lemma_place(ordered: Seq<Listing>, target: Listing) -> (place: int)
    requires
        ascending(ordered),
    ensures
        0 <= place <= ordered.len(),
        forall|i: int| 0 <= i < place ==> listed_before(#[trigger] ordered[i], target),
        forall|i: int|
            place <= i < ordered.len() ==> !listed_before(#[trigger] ordered[i], target),
    decreases ordered.len(),
{
    if ordered.len() == 0 {
        0
    } else {
        let n = ordered.len() - 1;
        if listed_before(ordered[n], target) {
            assert forall|i: int| 0 <= i < ordered.len() implies listed_before(
                #[trigger] ordered[i],
                target,
            ) by {
                if i < n {
                    assert(listed_before(ordered[i], ordered[n]));
                    lemma_transitive(ordered[i], ordered[n], target);
                }
            }
            ordered.len() as int
        } else {
            lemma_last_is_new(ordered);
            let place = lemma_place(ordered.drop_last(), target);
            assert forall|i: int| 0 <= i < place implies listed_before(
                #[trigger] ordered[i],
                target,
            ) by {
                assert(listed_before(ordered.drop_last()[i], target));
            }
            assert forall|i: int| place <= i < ordered.len() implies !listed_before(
                #[trigger] ordered[i],
                target,
            ) by {
                if i < n {
                    assert(!listed_before(ordered.drop_last()[i], target));
                }
            }
            place
        }
    }
}

/// Listings can be ordered in one way, and only in one.
pub proof fn lemma_order_exists(listings: Seq<Listing>)
    ensures
        orders(in_order(listings), listings),
        forall|ordered: Seq<Listing>| #[trigger]
            orders(ordered, listings) ==> ordered == in_order(listings),
    decreases listings.len(),
{
    if listings.len() == 0 {
        assert(orders(Seq::empty(), listings));
    } else {
        let earlier = listings.drop_last();
        let target = listings.last();
        lemma_order_exists(earlier);
        let before = in_order(earlier);
        assert(listings =~= earlier.push(target));
        if before.contains(target) {
            assert forall|listing: Listing| before.contains(
                listing,
            ) <==> #[trigger] listings.contains(listing) by {
                lemma_contains_push(earlier, target, listing);
                assert(earlier.contains(listing) <==> before.contains(listing));
            }
            assert(orders(before, listings));
        } else {
            let place = lemma_place(before, target);
            lemma_insert(before, place, target, earlier);
        }
    }
    assert forall|ordered: Seq<Listing>| #[trigger] orders(ordered, listings) implies ordered
        == in_order(listings) by {
        lemma_in_order(ordered, listings);
    }
}

/// What a sequence holds with one more at its end.
proof fn lemma_contains_push(listings: Seq<Listing>, added: Listing, listing: Listing)
    ensures
        listings.push(added).contains(listing) <==> (listings.contains(listing) || listing
            == added),
{
    assert(listings.push(added).drop_last() =~= listings);
    lemma_contains_drop_last(listings.push(added), listing);
}

/// What a sequence holds with one more in the midst of it.
proof fn lemma_contains_insert(listings: Seq<Listing>, at: int, added: Listing, listing: Listing)
    requires
        0 <= at <= listings.len(),
    ensures
        listings.insert(at, added).contains(listing) <==> (listings.contains(listing) || listing
            == added),
{
    let after = listings.insert(at, added);
    if after.contains(listing) {
        let i = choose|i: int| 0 <= i < after.len() && after[i] == listing;
        if i < at {
            assert(listings[i] == listing);
        } else if i > at {
            assert(listings[i - 1] == listing);
        }
    }
    if listings.contains(listing) {
        let i = choose|i: int| 0 <= i < listings.len() && listings[i] == listing;
        assert(after[if i < at { i } else { i + 1 }] == listing);
    }
    assert(after[at] == added);
}

/// Add one problem to those found.
fn report(errors: &mut Vec<String>, message: String)
    ensures
        final(errors).deep_view() == old(errors).deep_view().push(message@),
{
    let ghost before = errors.deep_view();
    errors.push(message);
    proof {
        assert(errors.deep_view() =~= before.push(message@));
    }
}

/// Everything gathered by one walk of a document's links.
struct Walked {
    /// Problems found so far.
    errors: Vec<String>,
    /// Every item that names itself, and the two roots.
    refs: StringHashSet,
    /// Claimed parents.
    parents: Vec<Listed>,
    /// Listed children, in order and each once.
    children: Vec<Listed>,
}

impl Walked {
    /// Whether this is what a walk has gathered after the given items, when it
    /// had found `found` and the roots list `listed`.
    spec fn gathered(
        &self,
        found: Seq<Seq<char>>,
        listed: Seq<Listing>,
        items: Seq<Option<Links>>,
    ) -> bool {
        &&& self.errors.deep_view() == found + item_errors(items)
        &&& self.refs@ == known(items)
        &&& self.parents.deep_view() == claims(items)
        &&& orders(self.children.deep_view(), listed + item_listings(items))
    }

    /// Record the children that one container lists.
    fn list(&mut self, parent: &str, children: &Vec<RefItem>, Ghost(listed): Ghost<Seq<Listing>>)
        requires
            orders(old(self).children.deep_view(), listed),
        ensures
            orders(
                final(self).children.deep_view(),
                listed + listings(parent@, children.deep_view()),
            ),
            final(self).errors == old(self).errors,
            final(self).refs == old(self).refs,
            final(self).parents == old(self).parents,
    {
        let ghost before = *self;
        let ghost all = listings(parent@, children.deep_view());
        let mut i: usize = 0;
        proof {
            assert(listed + all.take(0) =~= listed);
        }
        while i < children.len()
            invariant
                i <= children@.len(),
                all == listings(parent@, children.deep_view()),
                orders(self.children.deep_view(), listed + all.take(i as int)),
                self.errors == before.errors,
                self.refs == before.refs,
                self.parents == before.parents,
            decreases children@.len() - i,
        {
            add_listing(
                &mut self.children,
                parent,
                &children[i].reference,
                Ghost(listed + all.take(i as int)),
            );
            proof {
                assert(children.deep_view()[i as int] == children@[i as int].deep_view());
                assert((listed + all.take(i as int)).push(all[i as int]) =~= listed + all.take(
                    i + 1,
                ));
            }
            i = i + 1;
        }
        proof {
            assert(all.take(i as int) =~= all);
        }
    }

    /// Record what is wrong with a root by itself, and the children it lists.
    fn root(&mut self, root: &str, group: &Option<GroupItem>, Ghost(listed): Ghost<Seq<Listing>>)
        requires
            orders(old(self).children.deep_view(), listed),
        ensures
            orders(
                final(self).children.deep_view(),
                listed + root_listings(root@, group.deep_view()),
            ),
            final(self).errors.deep_view() == old(self).errors.deep_view() + root_errors(
                root@,
                group.deep_view(),
            ),
            final(self).refs == old(self).refs,
            final(self).parents == old(self).parents,
    {
        let ghost before = self.errors.deep_view();
        match group {
            None => {
                report(&mut self.errors, cat2(root, " is missing"));
                proof {
                    assert(self.errors.deep_view() =~= before + root_errors(root@, None));
                    assert(listed + root_listings(root@, None) =~= listed);
                }
            },
            Some(group) => {
                if !same(&group.self_ref, root) {
                    report(&mut self.errors, cat3(root, " carries self_ref ", &group.self_ref));
                }
                proof {
                    assert(self.errors.deep_view() =~= before + root_errors(
                        root@,
                        Some(group.deep_view()),
                    ));
                }
                self.list(root, &group.children, Ghost(listed));
            },
        }
    }

    /// Record one item's own reference, its children, and its parent.
    fn collect(
        &mut self,
        self_ref: &str,
        children: &Vec<RefItem>,
        parent: &Option<RefItem>,
        Ghost(found): Ghost<Seq<Seq<char>>>,
        Ghost(listed): Ghost<Seq<Listing>>,
        Ghost(items): Ghost<Seq<Option<Links>>>,
    )
        requires
            old(self).gathered(found, listed, items),
        ensures
            final(self).gathered(
                found,
                listed,
                items.push(
                    Some(
                        (Links {
                            self_ref: self_ref@,
                            children: children.deep_view(),
                            parent: parent.deep_view(),
                        }),
                    ),
                ),
            ),
    {
        let ghost links = Links {
            self_ref: self_ref@,
            children: children.deep_view(),
            parent: parent.deep_view(),
        };
        let ghost after = items.push(Some(links));
        let ghost errors = self.errors.deep_view();
        proof {
            assert(after.drop_last() =~= items);
            assert(after.last() == Some(links));
        }
        if self_ref.is_empty() {
            report(&mut self.errors, "item with empty self_ref".to_owned());
            proof {
                assert(self.errors.deep_view() =~= found + item_errors(after));
                assert(known(after) == known(items));
            }
            return;
        }
        let fresh: bool = self.refs.insert(self_ref.to_owned());
        if !fresh {
            report(&mut self.errors, cat2("duplicate self_ref ", self_ref));
        }
        proof {
            assert(self.errors.deep_view() =~= found + item_errors(after));
        }
        self.list(self_ref, children, Ghost(listed + item_listings(items)));
        proof {
            assert(listed + item_listings(after) =~= listed + item_listings(items) + listings(
                self_ref@,
                children.deep_view(),
            ));
        }
        match parent {
            None => {},
            Some(parent) => {
                let ghost parents = self.parents.deep_view();
                self.parents.push(
                    Listed { parent: parent.reference.clone(), child: self_ref.to_owned() },
                );
                proof {
                    assert(self.parents.deep_view() =~= claims(after));
                }
            },
        }
    }

    /// Record one text item.
    fn collect_text(
        &mut self,
        item: &BaseTextItem,
        Ghost(found): Ghost<Seq<Seq<char>>>,
        Ghost(listed): Ghost<Seq<Listing>>,
        Ghost(items): Ghost<Seq<Option<Links>>>,
    )
        requires
            old(self).gathered(found, listed, items),
        ensures
            final(self).gathered(found, listed, items.push(text_links(item.deep_view()))),
    {
        let ghost after = items.push(text_links(item.deep_view()));
        let base: &Option<TextItemBase> = match &item.item {
            None => &None,
            Some(Item::Title(value)) => &value.base,
            Some(Item::SectionHeader(value)) => &value.base,
            Some(Item::ListItem(value)) => &value.base,
            Some(Item::Formula(value)) => &value.base,
            Some(Item::Text(value)) => &value.base,
            Some(Item::FieldHeading(value)) => &value.base,
            Some(Item::FieldValue(value)) => &value.base,
            Some(Item::Code(value)) => {
                self.collect(
                    &value.self_ref,
                    &value.children,
                    &value.parent,
                    Ghost(found),
                    Ghost(listed),
                    Ghost(items),
                );
                return;
            },
        };
        match base {
            Some(base) => self.collect(
                &base.self_ref,
                &base.children,
                &base.parent,
                Ghost(found),
                Ghost(listed),
                Ghost(items),
            ),
            None => {
                report(&mut self.errors, "text item with unset variant".to_owned());
                proof {
                    assert(after.drop_last() =~= items);
                    assert(self.errors.deep_view() =~= found + item_errors(after));
                }
            },
        }
    }
}

/// Check that a document is safe for an additive merge: every item names
/// itself once, every child and every parent resolves, and every parent lists
/// the child that claims it. Nothing found is the only acceptable result.
pub fn integrity_errors(document: &Document) -> (r: Vec<String>)
    ensures
        r.deep_view() == faults(document.deep_view()),
{
    let ghost model = document.deep_view();
    let mut refs: StringHashSet = StringHashSet::new();
    refs.insert("#/body".to_owned());
    refs.insert("#/furniture".to_owned());
    let mut walked: Walked = Walked {
        errors: Vec::new(),
        refs,
        parents: Vec::new(),
        children: Vec::new(),
    };
    proof {
        assert(orders(walked.children.deep_view(), Seq::<Listing>::empty()));
    }
    walked.root("#/body", &document.body, Ghost(Seq::<Listing>::empty()));
    let ghost body = root_listings("#/body"@, model.body);
    proof {
        assert(Seq::<Listing>::empty() + body =~= body);
    }
    walked.root("#/furniture", &document.furniture, Ghost(body));
    let ghost listed = body + root_listings("#/furniture"@, model.furniture);
    let ghost found = root_errors("#/body"@, model.body) + root_errors(
        "#/furniture"@,
        model.furniture,
    );
    let ghost mut items: Seq<Option<Links>> = Seq::empty();
    let ghost all = items_of(model);
    proof {
        assert(walked.errors.deep_view() =~= found + item_errors(items));
        assert(listed + item_listings(items) =~= listed);
        assert(walked.parents.deep_view() =~= claims(items));
        assert(walked.refs@ =~= known(items));
    }
    let mut i: usize = 0;
    while i < document.groups.len()
        invariant
            i <= document.groups@.len(),
            model == document.deep_view(),
            all == items_of(model),
            items == all.take(i as int),
            walked.gathered(found, listed, items),
        decreases document.groups@.len() - i,
    {
        let group: &GroupItem = &document.groups[i];
        walked.collect(
            &group.self_ref,
            &group.children,
            &group.parent,
            Ghost(found),
            Ghost(listed),
            Ghost(items),
        );
        proof {
            assert(model.groups[i as int] == group.deep_view());
            assert(all[i as int] == group_links(group.deep_view()));
            assert(items.push(all[i as int]) =~= all.take(i + 1));
            items = all.take(i + 1);
        }
        i = i + 1;
    }
    let mut i: usize = 0;
    while i < document.texts.len()
        invariant
            i <= document.texts@.len(),
            model == document.deep_view(),
            all == items_of(model),
            items == all.take(model.groups.len() + i),
            walked.gathered(found, listed, items),
        decreases document.texts@.len() - i,
    {
        walked.collect_text(&document.texts[i], Ghost(found), Ghost(listed), Ghost(items));
        proof {
            let at = model.groups.len() + i;
            assert(model.texts[i as int] == document.texts@[i as int].deep_view());
            assert(all[at] == text_links(model.texts[i as int]));
            assert(items.push(all[at]) =~= all.take(at + 1));
            items = all.take(at + 1);
        }
        i = i + 1;
    }
    let mut i: usize = 0;
    while i < document.pictures.len()
        invariant
            i <= document.pictures@.len(),
            model == document.deep_view(),
            all == items_of(model),
            items == all.take(model.groups.len() + model.texts.len() + i),
            walked.gathered(found, listed, items),
        decreases document.pictures@.len() - i,
    {
        let picture: &PictureItem = &document.pictures[i];
        walked.collect(
            &picture.self_ref,
            &picture.children,
            &picture.parent,
            Ghost(found),
            Ghost(listed),
            Ghost(items),
        );
        proof {
            let at = model.groups.len() + model.texts.len() + i;
            assert(model.pictures[i as int] == picture.deep_view());
            assert(all[at] == picture_links(picture.deep_view()));
            assert(items.push(all[at]) =~= all.take(at + 1));
            items = all.take(at + 1);
        }
        i = i + 1;
    }
    let mut i: usize = 0;
    while i < document.tables.len()
        invariant
            i <= document.tables@.len(),
            model == document.deep_view(),
            all == items_of(model),
            items == all.take(
                model.groups.len() + model.texts.len() + model.pictures.len() + i,
            ),
            walked.gathered(found, listed, items),
        decreases document.tables@.len() - i,
    {
        let table: &TableItem = &document.tables[i];
        walked.collect(
            &table.self_ref,
            &table.children,
            &table.parent,
            Ghost(found),
            Ghost(listed),
            Ghost(items),
        );
        proof {
            let at = model.groups.len() + model.texts.len() + model.pictures.len() + i;
            assert(model.tables[i as int] == table.deep_view());
            assert(all[at] == table_links(table.deep_view()));
            assert(items.push(all[at]) =~= all.take(at + 1));
            items = all.take(at + 1);
        }
        i = i + 1;
    }
    proof {
        assert(items =~= all);
        lemma_in_order(walked.children.deep_view(), all_listings(model));
    }
    check_links(walked, Ghost(found), Ghost(listed), Ghost(all))
}

/// What is wrong with everything gathered: what was found on the way, the
/// listed children that do not resolve, and the claimed parents that do not
/// answer.
fn check_links(
    walked: Walked,
    Ghost(found): Ghost<Seq<Seq<char>>>,
    Ghost(listed): Ghost<Seq<Listing>>,
    Ghost(items): Ghost<Seq<Option<Links>>>,
) -> (r: Vec<String>)
    requires
        walked.gathered(found, listed, items),
    ensures
        r.deep_view() == found + item_errors(items) + child_errors(
            in_order(listed + item_listings(items)),
            known(items),
            in_order(listed + item_listings(items)).len() as int,
        ) + parent_errors(
            claims(items),
            known(items),
            listed + item_listings(items),
            claims(items).len() as int,
        ),
{
    let ghost listings = listed + item_listings(items);
    let ghost ordered = walked.children.deep_view();
    let ghost claimed = claims(items);
    let ghost start = found + item_errors(items);
    let Walked { errors, refs, parents, children } = walked;
    let mut errors: Vec<String> = errors;
    proof {
        lemma_in_order(ordered, listings);
        assert(start + child_errors(ordered, refs@, 0) =~= start);
    }
    let mut k: usize = 0;
    while k < children.len()
        invariant
            k <= children@.len(),
            ordered == children.deep_view(),
            errors.deep_view() == start + child_errors(ordered, refs@, k as int),
        decreases children@.len() - k,
    {
        let ghost before = errors.deep_view();
        proof {
            assert(ordered[k as int] == children@[k as int].deep_view());
        }
        if !refs.contains(&children[k].child) {
            report(
                &mut errors,
                cat5(
                    "child ",
                    &children[k].child,
                    " of ",
                    &children[k].parent,
                    " does not resolve",
                ),
            );
        }
        proof {
            assert(errors.deep_view() =~= start + child_errors(ordered, refs@, k + 1));
        }
        k = k + 1;
    }
    let ghost middle = start + child_errors(ordered, refs@, ordered.len() as int);
    proof {
        assert(middle + parent_errors(claimed, refs@, listings, 0) =~= middle);
    }
    let mut k: usize = 0;
    while k < parents.len()
        invariant
            k <= parents@.len(),
            claimed == parents.deep_view(),
            orders(children.deep_view(), listings),
            errors.deep_view() == middle + parent_errors(claimed, refs@, listings, k as int),
        decreases parents@.len() - k,
    {
        proof {
            assert(claimed[k as int] == parents@[k as int].deep_view());
            assert(listings.contains(claimed[k as int]) <==> children.deep_view().contains(
                claimed[k as int],
            ));
        }
        if !refs.contains(&parents[k].parent) {
            report(
                &mut errors,
                cat5(
                    "parent ",
                    &parents[k].parent,
                    " of ",
                    &parents[k].child,
                    " does not resolve",
                ),
            );
        } else if !is_listed(&children, &parents[k].parent, &parents[k].child) {
            report(
                &mut errors,
                cat5(
                    "parent ",
                    &parents[k].parent,
                    " does not list ",
                    &parents[k].child,
                    " as a child",
                ),
            );
        }
        proof {
            assert(errors.deep_view() =~= middle + parent_errors(
                claimed,
                refs@,
                listings,
                k + 1,
            ));
        }
        k = k + 1;
    }
    errors
}

} // verus!
