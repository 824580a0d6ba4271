//! What it is for a document to have no faults: its links lead somewhere, and
//! in both directions.

use vstd::prelude::*;
use crate::document_fold::integrity::{all_listings, child_errors, claims, faults, in_order,
    item_error, item_errors, item_listings, items_of, known, lemma_order_exists, listings, orders,
    parent_errors, root_errors, root_listings, text_links, Links, Listing};
use crate::proto::document::v1::{DocumentModel, GroupItemModel, RefItemModel, TextItemBaseModel};
use crate::proto::document::v1::base_text_item::ItemModel;
use crate::text::{lemma_precedes_is_strict, lemma_precedes_is_transitive, precedes};

verus! {

/// Whether the links of an item are the given ones.
pub open spec fn has_links(
    item: Option<Links>,
    self_ref: Seq<char>,
    children: Seq<RefItemModel>,
    parent: Option<RefItemModel>,
) -> bool {
    item matches Some(links) && links.self_ref == self_ref && links.children == children
        && links.parent == parent
}

/// Whether the links of an item are those of a text's base.
pub open spec fn has_base_links(item: Option<Links>, base: Option<TextItemBaseModel>) -> bool {
    match base {
        Some(base) => has_links(item, base.self_ref, base.children, base.parent),
        None => item is None,
    }
}

/// Every group, text, picture and table of a document is an item of it, with
/// its own links; texts have theirs in their base, but for code, and one
/// without a variant has none.
pub proof fn law_everything_is_an_item(document: DocumentModel, i: int)
    ensures
        ({
            let items = items_of(document);
            let g = document.groups.len() as int;
            let t = document.texts.len() as int;
            let p = document.pictures.len() as int;
            &&& items.len() == g + t + p + document.tables.len()
            &&& 0 <= i < g ==> has_links(
                items[i],
                document.groups[i].self_ref,
                document.groups[i].children,
                document.groups[i].parent,
            )
            &&& 0 <= i < t ==> match document.texts[i].item {
                None => items[g + i] is None,
                Some(ItemModel::Title(value)) => has_base_links(items[g + i], value.base),
                Some(ItemModel::SectionHeader(value)) => has_base_links(items[g + i], value.base),
                Some(ItemModel::ListItem(value)) => has_base_links(items[g + i], value.base),
                Some(ItemModel::Formula(value)) => has_base_links(items[g + i], value.base),
                Some(ItemModel::Text(value)) => has_base_links(items[g + i], value.base),
                Some(ItemModel::FieldHeading(value)) => has_base_links(items[g + i], value.base),
                Some(ItemModel::FieldValue(value)) => has_base_links(items[g + i], value.base),
                Some(ItemModel::Code(value)) => has_links(
                    items[g + i],
                    value.self_ref,
                    value.children,
                    value.parent,
                ),
            }
            &&& 0 <= i < p ==> has_links(
                items[g + t + i],
                document.pictures[i].self_ref,
                document.pictures[i].children,
                document.pictures[i].parent,
            )
            &&& 0 <= i < document.tables.len() ==> has_links(
                items[g + t + p + i],
                document.tables[i].self_ref,
                document.tables[i].children,
                document.tables[i].parent,
            )
        }),
{
    let items = items_of(document);
    let g = document.groups.len() as int;
    if 0 <= i < document.texts.len() {
        assert(items[g + i] == text_links(document.texts[i]));
    }
}

/// Whether an item goes by a reference.
pub open spec fn goes_by(item: Option<Links>, reference: Seq<char>) -> bool {
    item matches Some(links) && links.self_ref == reference && reference.len() > 0
}

/// Whether a reference leads to a root or to one of the items.
pub open spec fn resolves(items: Seq<Option<Links>>, reference: Seq<char>) -> bool {
    ||| reference == "#/body"@
    ||| reference == "#/furniture"@
    ||| exists|i: int| 0 <= i < items.len() && #[trigger] goes_by(items[i], reference)
}

/// Whether a child is among children.
pub open spec fn lists(children: Seq<RefItemModel>, child: Seq<char>) -> bool {
    exists|j: int| 0 <= j < children.len() && (#[trigger] children[j]).reference == child
}

/// Whether a root or an item that goes by a reference lists a child.
pub open spec fn is_listed(document: DocumentModel, parent: Seq<char>, child: Seq<char>) -> bool {
    let items = items_of(document);
    ||| parent == "#/body"@ && document.body is Some && lists(
        document.body->Some_0.children,
        child,
    )
    ||| parent == "#/furniture"@ && document.furniture is Some && lists(
        document.furniture->Some_0.children,
        child,
    )
    ||| exists|i: int|
        0 <= i < items.len() && #[trigger] goes_by(items[i], parent) && lists(
            items[i]->Some_0.children,
            child,
        )
}

/// Whether a root is there and goes by its own reference.
pub open spec fn is_root(group: Option<GroupItemModel>, reference: Seq<char>) -> bool {
    group matches Some(group) && group.self_ref == reference
}

/// Whether an item has a reference that no root and no item in front of it has.
pub open spec fn is_named_anew(items: Seq<Option<Links>>, i: int) -> bool {
    &&& items[i] matches Some(links)
    &&& links.self_ref.len() > 0
    &&& !resolves(items.take(i), links.self_ref)
}

/// Whether the parent that an item claims, if it claims one, is there and lists
/// the item.
pub open spec fn is_claimed_rightly(document: DocumentModel, i: int) -> bool {
    let items = items_of(document);
    items[i] matches Some(links) && (links.parent matches Some(parent) ==> resolves(
        items,
        parent.reference,
    ) && is_listed(document, parent.reference, links.self_ref))
}

/// Whether the links of a document are sound: both roots are there, every item
/// has a reference of its own, every child that is listed leads somewhere, and
/// every parent that is claimed is there and lists the item.
pub open spec fn is_sound(document: DocumentModel) -> bool {
    let items = items_of(document);
    &&& is_root(document.body, "#/body"@)
    &&& is_root(document.furniture, "#/furniture"@)
    &&& forall|i: int| 0 <= i < items.len() ==> #[trigger] is_named_anew(items, i)
    &&& forall|parent: Seq<char>, child: Seq<char>| #[trigger]
        is_listed(document, parent, child) ==> resolves(items, child)
    &&& forall|i: int| 0 <= i < items.len() ==> #[trigger] is_claimed_rightly(document, i)
}

/// What is known is what resolves.
proof fn lemma_known(items: Seq<Option<Links>>, reference: Seq<char>)
    ensures
        known(items).contains(reference) <==> resolves(items, reference),
    decreases items.len(),
{
    if items.len() > 0 {
        let front = items.drop_last();
        let n = items.len() as int;
        lemma_known(front, reference);
        if resolves(front, reference) {
            if exists|i: int| 0 <= i < front.len() && #[trigger] goes_by(front[i], reference) {
                let i = choose|i: int|
                    0 <= i < front.len() && #[trigger] goes_by(front[i], reference);
                assert(goes_by(items[i], reference));
            }
        }
        if goes_by(items[n - 1], reference) {
            assert(resolves(items, reference));
        }
        if exists|i: int| 0 <= i < items.len() && #[trigger] goes_by(items[i], reference) {
            let i = choose|i: int| 0 <= i < items.len() && #[trigger] goes_by(items[i], reference);
            if i < n - 1 {
                assert(goes_by(front[i], reference));
            }
        }
    }
}

/// There is nothing wrong with the items by themselves when each is named anew.
proof fn lemma_item_errors(items: Seq<Option<Links>>)
    ensures
        item_errors(items).len() == 0 <==> forall|i: int|
            0 <= i < items.len() ==> #[trigger] is_named_anew(items, i),
    decreases items.len(),
{
    if items.len() > 0 {
        let front = items.drop_last();
        let n = items.len() as int;
        lemma_item_errors(front);
        assert(items.take(n - 1) =~= front);
        if let Some(links) = items[n - 1] {
            lemma_known(front, links.self_ref);
        }
        assert(item_error(front, items[n - 1]).len() == 0 <==> is_named_anew(items, n - 1));
        assert forall|i: int| 0 <= i < n - 1 implies is_named_anew(front, i) == is_named_anew(
            items,
            i,
        ) by {
            assert(front.take(i) =~= items.take(i));
        }
        if item_errors(items).len() == 0 {
            assert forall|i: int| 0 <= i < items.len() implies #[trigger] is_named_anew(
                items,
                i,
            ) by {
                if i < n - 1 {
                    assert(is_named_anew(front, i));
                }
            }
        }
        if forall|i: int| 0 <= i < items.len() ==> #[trigger] is_named_anew(items, i) {
            assert forall|i: int| 0 <= i < front.len() implies #[trigger] is_named_anew(
                front,
                i,
            ) by {
                assert(is_named_anew(items, i));
            }
            assert(is_named_anew(items, n - 1));
        }
    }
}

/// What a container lists.
proof fn lemma_listings(
    parent: Seq<char>,
    children: Seq<RefItemModel>,
    listing: Listing,
)
    ensures
        listings(parent, children).contains(listing) <==> listing.parent == parent && lists(
            children,
            listing.child,
        ),
{
    let all = listings(parent, children);
    if all.contains(listing) {
        let j = choose|j: int| 0 <= j < all.len() && all[j] == listing;
        assert(children[j].reference == listing.child);
    }
    if listing.parent == parent && lists(children, listing.child) {
        let j = choose|j: int|
            0 <= j < children.len() && (#[trigger] children[j]).reference == listing.child;
        assert(all[j] == listing);
    }
}

/// Whether one of the items lists a child.
spec fn is_listed_by_an_item(items: Seq<Option<Links>>, listing: Listing) -> bool {
    exists|i: int|
        0 <= i < items.len() && #[trigger] goes_by(items[i], listing.parent) && lists(
            items[i]->Some_0.children,
            listing.child,
        )
}

/// What the items list.
proof fn lemma_item_listings(items: Seq<Option<Links>>, listing: Listing)
    ensures
        item_listings(items).contains(listing) <==> is_listed_by_an_item(items, listing),
    decreases items.len(),
{
    if items.len() > 0 {
        let front = items.drop_last();
        let n = items.len() as int;
        lemma_item_listings(front, listing);
        if is_listed_by_an_item(front, listing) {
            let i = choose|i: int|
                0 <= i < front.len() && #[trigger] goes_by(front[i], listing.parent) && lists(
                    front[i]->Some_0.children,
                    listing.child,
                );
            assert(goes_by(items[i], listing.parent));
        }
        if is_listed_by_an_item(items, listing) {
            let i = choose|i: int|
                0 <= i < items.len() && #[trigger] goes_by(items[i], listing.parent) && lists(
                    items[i]->Some_0.children,
                    listing.child,
                );
            if i < n - 1 {
                assert(goes_by(front[i], listing.parent));
            }
        }
        if let Some(links) = items[n - 1] {
            if links.self_ref.len() > 0 {
                let more = listings(links.self_ref, links.children);
                lemma_listings(links.self_ref, links.children, listing);
                lemma_contains_either(item_listings(front), more, listing);
                if listing.parent == links.self_ref && lists(links.children, listing.child) {
                    assert(goes_by(items[n - 1], listing.parent));
                }
            }
        }
    }
}

/// What two lists hold together.
proof fn lemma_contains_either(a: Seq<Listing>, b: Seq<Listing>, listing: Listing)
    ensures
        (a + b).contains(listing) <==> a.contains(listing) || b.contains(listing),
{
    let both = a + b;
    if a.contains(listing) {
        let i = choose|i: int| 0 <= i < a.len() && a[i] == listing;
        assert(both[i] == listing);
    }
    if b.contains(listing) {
        let i = choose|i: int| 0 <= i < b.len() && b[i] == listing;
        assert(both[a.len() + i] == listing);
    }
    if both.contains(listing) {
        let i = choose|i: int| 0 <= i < both.len() && both[i] == listing;
        if i < a.len() {
            assert(a[i] == listing);
        } else {
            assert(b[i - a.len()] == listing);
        }
    }
}

/// What a document lists.
proof fn lemma_all_listings(document: DocumentModel, listing: Listing)
    ensures
        all_listings(document).contains(listing) <==> is_listed(
            document,
            listing.parent,
            listing.child,
        ),
{
    let body = root_listings("#/body"@, document.body);
    let furniture = root_listings("#/furniture"@, document.furniture);
    let items = item_listings(items_of(document));
    lemma_contains_either(body + furniture, items, listing);
    lemma_contains_either(body, furniture, listing);
    lemma_item_listings(items_of(document), listing);
    if let Some(group) = document.body {
        lemma_listings("#/body"@, group.children, listing);
    }
    if let Some(group) = document.furniture {
        lemma_listings("#/furniture"@, group.children, listing);
    }
}

/// No child is missing when all are known.
proof fn lemma_child_errors(ordered: Seq<Listing>, known: Set<Seq<char>>, k: int)
    requires
        0 <= k <= ordered.len(),
    ensures
        child_errors(ordered, known, k).len() == 0 <==> forall|i: int|
            0 <= i < k ==> known.contains((#[trigger] ordered[i]).child),
    decreases k,
{
    if k > 0 {
        lemma_child_errors(ordered, known, k - 1);
        if !known.contains(ordered[k - 1].child) {
            assert(child_errors(ordered, known, k).len() > 0);
        }
    }
}

/// No claim is wrong when all parents are known and list the items.
proof fn lemma_parent_errors(
    claims: Seq<Listing>,
    known: Set<Seq<char>>,
    listings: Seq<Listing>,
    k: int,
)
    requires
        0 <= k <= claims.len(),
    ensures
        parent_errors(claims, known, listings, k).len() == 0 <==> forall|i: int|
            0 <= i < k ==> known.contains((#[trigger] claims[i]).parent) && listings.contains(
                claims[i],
            ),
    decreases k,
{
    if k > 0 {
        lemma_parent_errors(claims, known, listings, k - 1);
        if !known.contains(claims[k - 1].parent) || !listings.contains(claims[k - 1]) {
            assert(parent_errors(claims, known, listings, k).len() > 0);
        }
    }
}

/// Whether an item claims a parent.
spec fn claims_parent(item: Option<Links>, claim: Listing) -> bool {
    &&& goes_by(item, claim.child)
    &&& item->Some_0.parent matches Some(parent)
    &&& parent.reference == claim.parent
}

/// What the items claim.
proof fn lemma_claims(items: Seq<Option<Links>>, claim: Listing)
    ensures
        claims(items).contains(claim) <==> exists|i: int|
            0 <= i < items.len() && #[trigger] claims_parent(items[i], claim),
    decreases items.len(),
{
    if items.len() > 0 {
        let front = items.drop_last();
        let n = items.len() as int;
        lemma_claims(front, claim);
        if exists|i: int| 0 <= i < front.len() && #[trigger] claims_parent(front[i], claim) {
            let i = choose|i: int|
                0 <= i < front.len() && #[trigger] claims_parent(front[i], claim);
            assert(claims_parent(items[i], claim));
        }
        if exists|i: int| 0 <= i < items.len() && #[trigger] claims_parent(items[i], claim) {
            let i = choose|i: int|
                0 <= i < items.len() && #[trigger] claims_parent(items[i], claim);
            if i < n - 1 {
                assert(claims_parent(front[i], claim));
            }
        }
        if let Some(links) = items[n - 1] {
            if let Some(parent) = links.parent {
                if links.self_ref.len() > 0 {
                    let own = Listing { parent: parent.reference, child: links.self_ref };
                    assert(claims(items) =~= claims(front) + seq![own]);
                    lemma_contains_either(claims(front), seq![own], claim);
                    assert(seq![own].contains(claim) <==> own == claim) by {
                        assert(seq![own][0] == own);
                    }
                    if own == claim {
                        assert(claims_parent(items[n - 1], claim));
                    }
                }
            }
        }
    }
}

/// A document has no faults exactly when its links are sound.
pub proof fn law_a_document_without_faults_is_sound(document: DocumentModel)
    ensures
        faults(document).len() == 0 <==> is_sound(document),
{
    let items = items_of(document);
    let listed = all_listings(document);
    let ordered = in_order(listed);
    let claimed = claims(items);
    lemma_order_exists(listed);
    assert(orders(ordered, listed));
    lemma_item_errors(items);
    lemma_child_errors(ordered, known(items), ordered.len() as int);
    lemma_parent_errors(claimed, known(items), listed, claimed.len() as int);
    if faults(document).len() == 0 {
        assert forall|parent: Seq<char>, child: Seq<char>| #[trigger]
            is_listed(document, parent, child) implies resolves(items, child) by {
            let listing = Listing { parent, child };
            lemma_all_listings(document, listing);
            assert(listed.contains(listing));
            assert(ordered.contains(listing));
            let i = choose|i: int| 0 <= i < ordered.len() && ordered[i] == listing;
            assert(known(items).contains(ordered[i].child));
            lemma_known(items, child);
        }
        assert forall|i: int| 0 <= i < items.len() implies #[trigger] is_claimed_rightly(
            document,
            i,
        ) by {
            assert(is_named_anew(items, i));
            let links = items[i]->Some_0;
            if let Some(parent) = links.parent {
                let claim = Listing { parent: parent.reference, child: links.self_ref };
                lemma_claims(items, claim);
                assert(claims_parent(items[i], claim));
                let k = choose|k: int| 0 <= k < claimed.len() && claimed[k] == claim;
                assert(known(items).contains(claimed[k].parent));
                lemma_known(items, parent.reference);
                lemma_all_listings(document, claim);
            }
        }
    }
    if is_sound(document) {
        assert forall|i: int| 0 <= i < ordered.len() implies known(items).contains(
            (#[trigger] ordered[i]).child,
        ) by {
            assert(ordered.contains(ordered[i]));
            assert(listed.contains(ordered[i]));
            lemma_all_listings(document, ordered[i]);
            lemma_known(items, ordered[i].child);
        }
        assert forall|k: int| 0 <= k < claimed.len() implies known(items).contains(
            (#[trigger] claimed[k]).parent,
        ) && listed.contains(claimed[k]) by {
            lemma_claims(items, claimed[k]);
            assert(claimed.contains(claimed[k]));
            let i = choose|i: int|
                0 <= i < items.len() && #[trigger] claims_parent(items[i], claimed[k]);
            assert(is_claimed_rightly(document, i));
            lemma_known(items, claimed[k].parent);
            lemma_all_listings(document, claimed[k]);
        }
    }
}

/// Every child that leads nowhere is reported, by the child and the container
/// that lists it, and so is every parent that is not there or does not list the
/// item that claims it.
pub proof fn law_every_broken_link_is_reported(
    document: DocumentModel,
    parent: Seq<char>,
    child: Seq<char>,
    i: int,
)
    ensures
        is_listed(document, parent, child) && !resolves(items_of(document), child) ==> faults(
            document,
        ).contains("child "@ + child + " of "@ + parent + " does not resolve"@),
        0 <= i < items_of(document).len() ==> (items_of(document)[i] matches Some(links) ==> (
        links.self_ref.len() > 0 && links.parent is Some ==> {
            let claimed = links.parent->Some_0.reference;
            &&& !resolves(items_of(document), claimed) ==> faults(document).contains(
                "parent "@ + claimed + " of "@ + links.self_ref + " does not resolve"@,
            )
            &&& resolves(items_of(document), claimed) && !is_listed(
                document,
                claimed,
                links.self_ref,
            ) ==> faults(document).contains(
                "parent "@ + claimed + " does not list "@ + links.self_ref + " as a child"@,
            )
        })),
{
    let items = items_of(document);
    let listed = all_listings(document);
    let ordered = in_order(listed);
    let claimed = claims(items);
    lemma_order_exists(listed);
    let a = root_errors("#/body"@, document.body) + root_errors(
        "#/furniture"@,
        document.furniture,
    ) + item_errors(items);
    let b = child_errors(ordered, known(items), ordered.len() as int);
    let c = parent_errors(claimed, known(items), listed, claimed.len() as int);
    let all = faults(document);
    assert(all =~= a + b + c);
    if is_listed(document, parent, child) && !resolves(items, child) {
        let listing = Listing { parent, child };
        lemma_all_listings(document, listing);
        assert(ordered.contains(listing));
        let k = choose|k: int| 0 <= k < ordered.len() && ordered[k] == listing;
        lemma_known(items, child);
        lemma_child_reported(ordered, known(items), k, ordered.len() as int);
        let message = "child "@ + child + " of "@ + parent + " does not resolve"@;
        let j = choose|j: int| 0 <= j < b.len() && b[j] == message;
        assert(all[a.len() + j] == message);
    }
    if 0 <= i < items.len() {
        if let Some(links) = items[i] {
            if links.self_ref.len() > 0 && links.parent is Some {
                let reference = links.parent->Some_0.reference;
                let claim = Listing { parent: reference, child: links.self_ref };
                lemma_claims(items, claim);
                assert(claims_parent(items[i], claim));
                let k = choose|k: int| 0 <= k < claimed.len() && claimed[k] == claim;
                lemma_known(items, reference);
                lemma_all_listings(document, claim);
                lemma_parent_reported(claimed, known(items), listed, k, claimed.len() as int);
                let lost = "parent "@ + reference + " of "@ + links.self_ref
                    + " does not resolve"@;
                let unlisted = "parent "@ + reference + " does not list "@ + links.self_ref
                    + " as a child"@;
                if !resolves(items, reference) {
                    let j = choose|j: int| 0 <= j < c.len() && c[j] == lost;
                    assert(all[a.len() + b.len() + j] == lost);
                } else if !is_listed(document, reference, links.self_ref) {
                    let j = choose|j: int| 0 <= j < c.len() && c[j] == unlisted;
                    assert(all[a.len() + b.len() + j] == unlisted);
                }
            }
        }
    }
}

/// A child that is not known is reported.
proof fn lemma_child_reported(ordered: Seq<Listing>, known: Set<Seq<char>>, i: int, k: int)
    requires
        0 <= i < k <= ordered.len(),
        !known.contains(ordered[i].child),
    ensures
        child_errors(ordered, known, k).contains(
            "child "@ + ordered[i].child + " of "@ + ordered[i].parent + " does not resolve"@,
        ),
    decreases k,
{
    let message = "child "@ + ordered[i].child + " of "@ + ordered[i].parent
        + " does not resolve"@;
    let errors = child_errors(ordered, known, k);
    if i == k - 1 {
        assert(errors[errors.len() - 1] == message);
    } else {
        lemma_child_reported(ordered, known, i, k - 1);
        let before = child_errors(ordered, known, k - 1);
        let j = choose|j: int| 0 <= j < before.len() && before[j] == message;
        assert(errors[j] == message);
    }
}

/// A claim that is wrong is reported.
proof fn lemma_parent_reported(
    claims: Seq<Listing>,
    known: Set<Seq<char>>,
    listings: Seq<Listing>,
    i: int,
    k: int,
)
    requires
        0 <= i < k <= claims.len(),
    ensures
        !known.contains(claims[i].parent) ==> parent_errors(claims, known, listings, k).contains(
            "parent "@ + claims[i].parent + " of "@ + claims[i].child + " does not resolve"@,
        ),
        known.contains(claims[i].parent) && !listings.contains(claims[i]) ==> parent_errors(
            claims,
            known,
            listings,
            k,
        ).contains(
            "parent "@ + claims[i].parent + " does not list "@ + claims[i].child + " as a child"@,
        ),
    decreases k,
{
    let lost = "parent "@ + claims[i].parent + " of "@ + claims[i].child + " does not resolve"@;
    let unlisted = "parent "@ + claims[i].parent + " does not list "@ + claims[i].child
        + " as a child"@;
    let errors = parent_errors(claims, known, listings, k);
    if i == k - 1 {
        let n = errors.len() as int;
        if !known.contains(claims[i].parent) {
            assert(errors[n - 1] == lost);
        } else if !listings.contains(claims[i]) {
            assert(errors[n - 1] == unlisted);
        }
    } else {
        lemma_parent_reported(claims, known, listings, i, k - 1);
        let before = parent_errors(claims, known, listings, k - 1);
        if before.contains(lost) {
            let j = choose|j: int| 0 <= j < before.len() && before[j] == lost;
            assert(errors[j] == lost);
        }
        if before.contains(unlisted) {
            let j = choose|j: int| 0 <= j < before.len() && before[j] == unlisted;
            assert(errors[j] == unlisted);
        }
    }
}

/// Listings are reported in the order of their containers, and of the children
/// where a container has several, each once.
pub proof fn law_listings_are_reported_in_order(listings: Seq<Listing>, i: int, j: int)
    requires
        0 <= i < j < in_order(listings).len(),
    ensures
        ({
            let a = in_order(listings)[i];
            let b = in_order(listings)[j];
            &&& a != b
            &&& !precedes(b.parent, a.parent)
            &&& a.parent == b.parent ==> precedes(a.child, b.child)
            &&& listings.contains(a)
        }),
{
    let ordered = in_order(listings);
    lemma_order_exists(listings);
    assert(orders(ordered, listings));
    let a = ordered[i];
    let b = ordered[j];
    assert(ordered.contains(a));
    lemma_precedes_is_strict(a.child);
    if precedes(b.parent, a.parent) {
        lemma_precedes_is_strict(a.parent);
        if precedes(a.parent, b.parent) {
            lemma_precedes_is_transitive(a.parent, b.parent, a.parent);
        }
    }
    if a == b {
        lemma_precedes_is_strict(a.parent);
    }
}

} // verus!
