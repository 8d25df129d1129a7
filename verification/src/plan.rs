//! The decisions of a run: which feeds to fetch, which items of a feed are
//! new and in which order they are posted, and the checks on what the user
//! asked for.
use vstd::prelude::*;
use vstd::string::*;

use crate::delay::ErrorMessage;
use crate::feed::{item_views, NewFeedItem, NewFeedItemView};
use crate::models::{Service, Services};
use crate::social_network::AccessMode;
use crate::text::{str_eq, string_views};
use crate::time::{instant_before_or_same, instant_le, Instant};

verus! {

/// Whether `a` comes before `b` in the order of Rust strings: character by
/// character (which is the order of their UTF-8 bytes), a prefix first.
pub open spec fn lex_lt(a: Seq<char>, b: Seq<char>) -> bool
    decreases a.len(),
{
    if a.len() == 0 {
        b.len() > 0
    } else if b.len() == 0 {
        false
    } else if a[0] != b[0] {
        a[0] < b[0]
    } else {
        lex_lt(a.drop_first(), b.drop_first())
    }
}

/// Two strings are equal or one comes before the other, and not both ways.
pub proof fn lemma_lex_total(a: Seq<char>, b: Seq<char>)
    ensures
        a == b || lex_lt(a, b) || lex_lt(b, a),
        !(lex_lt(a, b) && lex_lt(b, a)),
        !lex_lt(a, a),
    decreases a.len(),
{
    if a.len() > 0 && b.len() > 0 && a[0] == b[0] {
        lemma_lex_total(a.drop_first(), b.drop_first());
        if a.drop_first() == b.drop_first() {
            assert forall|k: int| 0 <= k < a.len() implies a[k] == b[k] by {
                if k > 0 {
                    assert(a[k] == a.drop_first()[k - 1]);
                    assert(b[k] == b.drop_first()[k - 1]);
                }
            }
            assert(a =~= b);
        }
    }
    if a.len() > 0 {
        lemma_lex_total(a.drop_first(), a.drop_first());
    }
}

/// The order of strings is transitive.
pub proof fn lemma_lex_transitive(a: Seq<char>, b: Seq<char>, c: Seq<char>)
    requires
        lex_lt(a, b),
        lex_lt(b, c),
    ensures
        lex_lt(a, c),
    decreases a.len(),
{
    if a.len() > 0 && b.len() > 0 && c.len() > 0 && a[0] == b[0] && b[0] == c[0] {
        lemma_lex_transitive(a.drop_first(), b.drop_first(), c.drop_first());
    }
}

/// Whether `a` comes before `b`.
pub fn str_lt(a: &str, b: &str) -> (r: bool)
    ensures
        r == lex_lt(a@, b@),
{
    let n = a.unicode_len();
    let m = b.unicode_len();
    let mut i: usize = 0;
    assert(a@.skip(0) =~= a@);
    assert(b@.skip(0) =~= b@);
    while i < n && i < m
        invariant
            n == a@.len(),
            m == b@.len(),
            i <= n,
            i <= m,
            lex_lt(a@, b@) == lex_lt(a@.skip(i as int), b@.skip(i as int)),
        decreases n - i,
    {
        let x = a.get_char(i);
        let y = b.get_char(i);
        assert(a@.skip(i as int)[0] == x && b@.skip(i as int)[0] == y);
        if x != y {
            return x < y;
        }
        assert(a@.skip(i as int).drop_first() =~= a@.skip(i + 1));
        assert(b@.skip(i as int).drop_first() =~= b@.skip(i + 1));
        i = i + 1;
    }
    i == n && i < m
}

/// Whether each string comes before the next.
pub open spec fn strictly_sorted(s: Seq<Seq<char>>) -> bool {
    forall|i: int, j: int| 0 <= i < j < s.len() ==> lex_lt(s[i], s[j])
}

/// The feed URLs to fetch, in order, each once, as std's `sort` then `dedup`
/// leave them.
pub fn sort_dedup_urls(urls: Vec<String>) -> (r: Vec<String>)
    ensures
        strictly_sorted(string_views(r@)),
        string_views(r@).to_set() == string_views(urls@).to_set(),
{
    let ghost input = string_views(urls@);
    let mut out: Vec<String> = Vec::new();
    let mut rest = urls;
    let ghost taken: nat = 0;
    while rest.len() > 0
        invariant
            taken + rest@.len() == input.len(),
            string_views(rest@) == input.skip(taken as int),
            strictly_sorted(string_views(out@)),
            string_views(out@).to_set() == input.take(taken as int).to_set(),
        decreases rest@.len(),
    {
        let ghost rv = string_views(rest@);
        let x = rest.remove(0);
        assert(rv[0] == x@);
        assert(string_views(rest@) =~= rv.drop_first());
        assert(rv =~= input.skip(taken as int));
        assert(x@ == input[taken as int]);
        assert(string_views(rest@) =~= input.skip(taken + 1 as int));
        let ghost ov = string_views(out@);
        let n = out.len();
        let mut p: usize = 0;
        while p < n && str_lt(out[p].as_str(), x.as_str())
            invariant
                n == out@.len(),
                p <= n,
                ov == string_views(out@),
                forall|k: int| 0 <= k < p ==> lex_lt(ov[k], x@),
            decreases n - p,
        {
            p = p + 1;
        }
        let duplicate = p < n && str_eq(out[p].as_str(), x.as_str());
        let ghost xv = x@;
        if !duplicate {
            out.insert(p, x);
            proof {
                let nv = string_views(out@);
                assert(nv =~= ov.take(p as int) + seq![xv] + ov.skip(p as int));
                if p < n {
                    lemma_lex_total(ov[p as int], xv);
                }
                assert forall|k: int| p <= k < n implies lex_lt(xv, #[trigger] ov[k]) by {
                    if k > p {
                        lemma_lex_transitive(xv, ov[p as int], ov[k]);
                    }
                }
                assert forall|i: int, j: int| 0 <= i < j < nv.len() implies lex_lt(nv[i], nv[j]) by {
                    if j < p {
                    } else if j == p {
                    } else if i == p {
                        assert(lex_lt(xv, ov[j - 1]));
                    } else if i < p {
                        assert(lex_lt(xv, ov[j - 1]));
                        lemma_lex_transitive(ov[i], xv, ov[j - 1]);
                    } else {
                    }
                }
                assert forall|e: Seq<char>| #[trigger] nv.contains(e) <==> (ov.contains(e) || e == xv) by {
                    if nv.contains(e) {
                        let k = choose|k: int| 0 <= k < nv.len() && nv[k] == e;
                        if k < p {
                            assert(ov[k] == e);
                        } else if k > p {
                            assert(ov[k - 1] == e);
                        }
                    }
                    if ov.contains(e) {
                        let k = choose|k: int| 0 <= k < ov.len() && ov[k] == e;
                        if k < p {
                            assert(nv[k] == e);
                        } else {
                            assert(nv[k + 1] == e);
                        }
                    }
                    if e == xv {
                        assert(nv[p as int] == xv);
                    }
                }
                assert(nv.to_set() =~= ov.to_set().insert(xv));
            }
        } else {
            assert(ov[p as int] == xv);
            assert(ov.to_set().contains(xv));
        }
        proof {
            assert(input.take(taken + 1 as int) =~= input.take(taken as int).push(xv));
            assert(input.take(taken + 1 as int).to_set() =~= input.take(taken as int).to_set().insert(xv)) by {
                input.take(taken as int).lemma_push_to_set_commute(xv);
            }
            assert(string_views(out@).to_set() =~= input.take(taken + 1 as int).to_set());
            taken = taken + 1;
        }
    }
    assert(input.take(input.len() as int) =~= input);
    out
}

/// Whether a date is no later than another, a missing date first.
pub open spec fn date_le(a: Option<Instant>, b: Option<Instant>) -> bool {
    match (a, b) {
        (None, _) => true,
        (Some(_), None) => false,
        (Some(x), Some(y)) => instant_le(x, y),
    }
}

/// `sorted` with `x` placed after every item published no later than it.
pub open spec fn insert_by_date(sorted: Seq<NewFeedItemView>, x: NewFeedItemView) -> Seq<NewFeedItemView>
    decreases sorted.len(),
{
    if sorted.len() == 0 {
        seq![x]
    } else if date_le(sorted.last().date_published, x.date_published) {
        sorted.push(x)
    } else {
        insert_by_date(sorted.drop_last(), x).push(sorted.last())
    }
}

/// The items sorted by publication date, oldest first, missing dates first,
/// items of the same date in their order: std's stable `sort_by_key`.
pub open spec fn sort_by_date(items: Seq<NewFeedItemView>) -> Seq<NewFeedItemView>
    decreases items.len(),
{
    if items.len() == 0 {
        seq![]
    } else {
        insert_by_date(sort_by_date(items.drop_last()), items.last())
    }
}

/// Whether an item is dated after `now`.
pub open spec fn spec_is_future(item: NewFeedItemView, now: Instant) -> bool {
    item.date_published matches Some(d) && !instant_le(d, now)
}

/// The items to post: those not posted before and not dated after `now`, in
/// their order.
pub open spec fn spec_new_items(items: Seq<NewFeedItemView>, posted: Seq<bool>, now: Instant) -> Seq<NewFeedItemView>
    decreases items.len(),
{
    if items.len() == 0 || posted.len() == 0 {
        seq![]
    } else {
        let rest = spec_new_items(items.drop_last(), posted.drop_last(), now);
        if posted.last() || spec_is_future(items.last(), now) {
            rest
        } else {
            rest.push(items.last())
        }
    }
}

impl NewFeedItem {
    /// Whether this item is dated after the instant `now`.
    pub fn is_future_post(&self, now: Instant) -> (r: bool)
        ensures
            r == spec_is_future(self@, now),
    {
        match self.date_published {
            Some(d) => !instant_before_or_same(d, now),
            None => false,
        }
    }
}

/// Where `insert_by_date` places an item: after the last item published no
/// later than it.
proof fn lemma_insert_position(sorted: Seq<NewFeedItemView>, x: NewFeedItemView, p: int)
    requires
        0 <= p <= sorted.len(),
        forall|k: int| p <= k < sorted.len() ==> !date_le(#[trigger] sorted[k].date_published, x.date_published),
        p > 0 ==> date_le(sorted[p - 1].date_published, x.date_published),
    ensures
        insert_by_date(sorted, x) =~= sorted.take(p) + seq![x] + sorted.skip(p),
    decreases sorted.len(),
{
    if sorted.len() == 0 {
    } else if p == sorted.len() {
        assert(sorted.take(p) =~= sorted);
    } else {
        let init = sorted.drop_last();
        assert forall|k: int| p <= k < init.len() implies !date_le(#[trigger] init[k].date_published, x.date_published) by {
            assert(init[k] == sorted[k]);
        }
        lemma_insert_position(init, x, p);
        assert(init.take(p) =~= sorted.take(p));
        assert(sorted.skip(p) =~= init.skip(p).push(sorted.last()));
    }
}

/// The items to post of a feed, in the order to post them: those not posted
/// before (`posted[i]` tells of `items[i]`) and not dated after `now`,
/// oldest first.
pub fn select_new_items(items: Vec<NewFeedItem>, posted: &Vec<bool>, now: Instant) -> (r: Vec<NewFeedItem>)
    requires
        items@.len() == posted@.len(),
    ensures
        item_views(r@) == sort_by_date(spec_new_items(item_views(items@), posted@, now)),
{
    let ghost all = item_views(items@);
    let mut out: Vec<NewFeedItem> = Vec::new();
    let mut rest = items;
    let n = posted.len();
    let mut i: usize = 0;
    while i < n
        invariant
            n == posted@.len(),
            n == all.len(),
            i <= n,
            rest@.len() == n - i,
            item_views(rest@) == all.skip(i as int),
            item_views(out@) == sort_by_date(spec_new_items(all.take(i as int), posted@.take(i as int), now)),
        decreases n - i,
    {
        let ghost rv = item_views(rest@);
        let item = rest.remove(0);
        assert(rv[0] == item@);
        assert(item_views(rest@) =~= rv.drop_first());
        assert(item@ == all[i as int]);
        assert(item_views(rest@) =~= all.skip(i + 1));
        assert(all.take(i + 1).drop_last() =~= all.take(i as int));
        assert(posted@.take(i + 1).drop_last() =~= posted@.take(i as int));
        let ghost prev = spec_new_items(all.take(i as int), posted@.take(i as int), now);
        assert(all.take(i + 1).last() == item@);
        assert(posted@.take(i + 1).last() == posted@[i as int]);
        let skip = posted[i] || item.is_future_post(now);
        if !skip {
            let ghost ov = item_views(out@);
            let m = out.len();
            let mut p = m;
            while p > 0 && !date_before_or_same(out[p - 1].date_published, item.date_published)
                invariant
                    m == out@.len(),
                    p <= m,
                    ov == item_views(out@),
                    forall|k: int| p <= k < m ==> !date_le(#[trigger] ov[k].date_published, item@.date_published),
                decreases p,
            {
                p = p - 1;
            }
            proof {
                lemma_insert_position(ov, item@, p as int);
            }
            out.insert(p, item);
            assert(item_views(out@) =~= ov.take(p as int) + seq![item@] + ov.skip(p as int));
            assert(spec_new_items(all.take(i + 1), posted@.take(i + 1), now) == prev.push(item@));
            assert(prev.push(item@).drop_last() =~= prev);
            assert(prev.push(item@).last() == item@);
            assert(sort_by_date(prev.push(item@)) == insert_by_date(sort_by_date(prev), item@));
        } else {
            assert(spec_new_items(all.take(i + 1), posted@.take(i + 1), now) == prev);
        }
        i = i + 1;
    }
    assert(all.take(n as int) =~= all);
    assert(posted@.take(n as int) =~= posted@);
    out
}

/// Whether a date is no later than another, a missing date first.
fn date_before_or_same(a: Option<Instant>, b: Option<Instant>) -> (r: bool)
    ensures
        r == date_le(a, b),
{
    match (a, b) {
        (None, _) => true,
        (Some(_), None) => false,
        (Some(x), Some(y)) => instant_before_or_same(x, y),
    }
}

/// Whether each item is published no earlier than the one before.
pub open spec fn sorted_by_date(s: Seq<NewFeedItemView>) -> bool {
    forall|i: int| 0 <= i < s.len() - 1 ==> date_le(#[trigger] s[i].date_published, s[i + 1].date_published)
}

/// Placing an item in a list sorted by date keeps it sorted, and adds just
/// that item.
proof fn lemma_insert_keeps_sorted(sorted: Seq<NewFeedItemView>, x: NewFeedItemView)
    requires
        sorted_by_date(sorted),
    ensures
        sorted_by_date(insert_by_date(sorted, x)),
        insert_by_date(sorted, x).to_multiset() == sorted.to_multiset().insert(x),
    decreases sorted.len(),
{
    broadcast use vstd::multiset::group_multiset_axioms, vstd::seq_lib::group_seq_properties;
    if sorted.len() == 0 {
        assert(sorted =~= Seq::<NewFeedItemView>::empty());
        assert(seq![x] =~= sorted.push(x));
        sorted.to_multiset_ensures();
    } else if date_le(sorted.last().date_published, x.date_published) {
        sorted.to_multiset_ensures();
    } else {
        let init = sorted.drop_last();
        assert(sorted_by_date(init)) by {
            assert forall|i: int| 0 <= i < init.len() - 1 implies date_le(#[trigger] init[i].date_published, init[i + 1].date_published) by {
                assert(init[i] == sorted[i] && init[i + 1] == sorted[i + 1]);
            }
        }
        lemma_insert_keeps_sorted(init, x);
        let ins = insert_by_date(init, x);
        let res = ins.push(sorted.last());
        assert(ins.len() > 0);
        assert(date_le(ins.last().date_published, sorted.last().date_published)) by {
            lemma_insert_last(init, x, sorted.last());
        }
        assert(sorted_by_date(res)) by {
            assert forall|i: int| 0 <= i < res.len() - 1 implies date_le(#[trigger] res[i].date_published, res[i + 1].date_published) by {
                if i < ins.len() - 1 {
                    assert(res[i] == ins[i] && res[i + 1] == ins[i + 1]);
                }
            }
        }
        ins.to_multiset_ensures();
        sorted.to_multiset_ensures();
        init.to_multiset_ensures();
        assert(sorted =~= init.push(sorted.last()));
        assert(res.to_multiset() =~= ins.to_multiset().insert(sorted.last()));
        assert(sorted.to_multiset() =~= init.to_multiset().insert(sorted.last()));
    }
}

/// The last item after placing `x` is `x` or the last item before, and in a
/// list sorted by date it is no later than `y` when both of those are.
proof fn lemma_insert_last(sorted: Seq<NewFeedItemView>, x: NewFeedItemView, y: NewFeedItemView)
    requires
        sorted_by_date(sorted),
        !date_le(y.date_published, x.date_published),
        sorted.len() > 0 ==> date_le(sorted.last().date_published, y.date_published),
    ensures
        date_le(insert_by_date(sorted, x).last().date_published, y.date_published),
    decreases sorted.len(),
{
    if sorted.len() > 0 && !date_le(sorted.last().date_published, x.date_published) {
        let init = sorted.drop_last();
        if init.len() > 0 {
            assert(date_le(init.last().date_published, sorted.last().date_published)) by {
                assert(init.last() == sorted[sorted.len() - 2]);
            }
        }
    }
}

/// Sorting by date gives the items sorted by date, each as often as before.
pub proof fn law_sort_by_date_sorted(items: Seq<NewFeedItemView>)
    ensures
        sorted_by_date(sort_by_date(items)),
        sort_by_date(items).to_multiset() == items.to_multiset(),
    decreases items.len(),
{
    broadcast use vstd::multiset::group_multiset_axioms, vstd::seq_lib::group_seq_properties;
    if items.len() == 0 {
        assert(items =~= Seq::<NewFeedItemView>::empty());
    } else {
        law_sort_by_date_sorted(items.drop_last());
        lemma_insert_keeps_sorted(sort_by_date(items.drop_last()), items.last());
        items.to_multiset_ensures();
        items.drop_last().to_multiset_ensures();
        assert(items =~= items.drop_last().push(items.last()));
    }
}

/// Each item chosen to post was not posted before and is not dated after
/// `now`: it stands in `items` at a place that `posted` marks as not posted.
proof fn lemma_new_items_are_new(items: Seq<NewFeedItemView>, posted: Seq<bool>, now: Instant, x: NewFeedItemView)
    requires
        items.len() == posted.len(),
        spec_new_items(items, posted, now).contains(x),
    ensures
        !spec_is_future(x, now),
        exists|i: int| 0 <= i < items.len() && items[i] == x && !posted[i],
    decreases items.len(),
{
    if items.len() > 0 {
        let rest = spec_new_items(items.drop_last(), posted.drop_last(), now);
        let last = items.len() - 1;
        if rest.contains(x) {
            lemma_new_items_are_new(items.drop_last(), posted.drop_last(), now, x);
            let i = choose|i: int| 0 <= i < items.drop_last().len() && items.drop_last()[i] == x && !posted.drop_last()[i];
            assert(items[i] == x && !posted[i]);
        } else {
            let out = rest.push(items.last());
            let k = choose|k: int| 0 <= k < spec_new_items(items, posted, now).len() && spec_new_items(items, posted, now)[k] == x;
            assert(!(posted.last() || spec_is_future(items.last(), now)));
            assert(spec_new_items(items, posted, now) == out);
            if k < rest.len() {
                assert(rest[k] == x);
            }
            assert(items[last] == x && !posted[last]);
        }
    }
}

/// Whatever a run posts of a feed was not posted before and is not dated
/// after the time of the run: every item of `sort_by_date(spec_new_items(..))`
/// stands in the feed at a place not marked as posted, and is not in the
/// future.
pub proof fn law_posts_only_new_items(items: Seq<NewFeedItemView>, posted: Seq<bool>, now: Instant, x: NewFeedItemView)
    requires
        items.len() == posted.len(),
        sort_by_date(spec_new_items(items, posted, now)).contains(x),
    ensures
        !spec_is_future(x, now),
        exists|i: int| 0 <= i < items.len() && items[i] == x && !posted[i],
{
    let chosen = spec_new_items(items, posted, now);
    law_sort_by_date_sorted(chosen);
    vstd::seq_lib::to_multiset_contains(sort_by_date(chosen), x);
    vstd::seq_lib::to_multiset_contains(chosen, x);
    lemma_new_items_are_new(items, posted, now, x);
}

/// Once the items of a feed are all recorded (as the initial sync of a feed
/// records them), none of them is posted.
pub proof fn law_recorded_items_not_posted(items: Seq<NewFeedItemView>, posted: Seq<bool>, now: Instant)
    requires
        items.len() == posted.len(),
        forall|i: int| 0 <= i < posted.len() ==> #[trigger] posted[i],
    ensures
        sort_by_date(spec_new_items(items, posted, now)).len() == 0,
    decreases items.len(),
{
    if items.len() > 0 {
        assert(posted.last());
        let init = posted.drop_last();
        assert forall|i: int| 0 <= i < init.len() implies #[trigger] init[i] by {
            assert(init[i] == posted[i]);
        }
        law_recorded_items_not_posted(items.drop_last(), init, now);
    }
    assert(spec_new_items(items, posted, now).len() == 0);
}

/// What `--list` can list.
#[derive(Debug, Clone, Copy, PartialEq, Eq, Structural)]
pub enum ListKind {
    Feeds,
    Services,
}

/// The message for an unknown kind of item to list.
pub open spec fn spec_unknown_list_kind(type_: Seq<char>) -> Seq<char> {
    "unknown item type: "@ + type_ + ". Valid types: feeds, services"@
}

/// The kind of item that `type_` names for listing.
pub fn list_kind(type_: &str) -> (r: Result<ListKind, ErrorMessage>)
    ensures
        type_@ == "feeds"@ ==> r == Ok::<ListKind, ErrorMessage>(ListKind::Feeds),
        type_@ == "services"@ ==> r == Ok::<ListKind, ErrorMessage>(ListKind::Services),
        type_@ != "feeds"@ && type_@ != "services"@ ==> (r matches Err(e) && e.0@ == spec_unknown_list_kind(type_@)),
{
    proof {
        reveal_strlit("feeds");
        reveal_strlit("services");
        assert("feeds"@[0] != "services"@[0]);
    }
    if str_eq(type_, "feeds") {
        Ok(ListKind::Feeds)
    } else if str_eq(type_, "services") {
        Ok(ListKind::Services)
    } else {
        let mut msg = String::from_str("unknown item type: ");
        msg.append(type_);
        msg.append(". Valid types: feeds, services");
        Err(ErrorMessage(msg))
    }
}

/// The service to register with: registering writes, so a dry run is
/// refused first; then exactly one service must have been named.
pub fn registration_service(access_mode: AccessMode, services: &Vec<Service>) -> (r: Result<Service, ErrorMessage>)
    ensures
        access_mode == AccessMode::ReadOnly ==> (r matches Err(e)
            && e.0@ == "registration cannot be run in dry-run mode"@),
        access_mode == AccessMode::ReadWrite && services@.len() == 1 ==> r == Ok::<Service, ErrorMessage>(services@[0]),
        access_mode == AccessMode::ReadWrite && services@.len() != 1 ==> (r matches Err(e)
            && e.0@ == "exactly one service must be supplied with -s to register"@),
{
    if access_mode == AccessMode::ReadOnly {
        return Err(ErrorMessage(String::from_str("registration cannot be run in dry-run mode")));
    }
    if services.len() == 1 {
        Ok(services[0])
    } else {
        Err(ErrorMessage(String::from_str("exactly one service must be supplied with -s to register")))
    }
}

/// The services a run posts to: all of them when none was named.
pub fn services_filter(services: Vec<Service>) -> (r: Services)
    ensures
        services@.len() == 0 ==> r is All,
        services@.len() > 0 ==> (r matches Services::Specific(v) && v@ == services@),
{
    if services.len() == 0 {
        Services::All
    } else {
        Services::Specific(services)
    }
}

/// Checks before a run: some service must be configured to post to, and
/// some feed URL must have been given, in that order.
pub fn check_run(service_count: usize, url_count: usize) -> (r: Result<(), ErrorMessage>)
    ensures
        service_count == 0 ==> (r matches Err(e) && e.0@ == "no configured services to post to"@),
        service_count > 0 && url_count == 0 ==> (r matches Err(e) && e.0@ == "no feeds URLs supplied"@),
        service_count > 0 && url_count > 0 ==> r is Ok,
{
    if service_count == 0 {
        Err(ErrorMessage(String::from_str("no configured services to post to")))
    } else if url_count == 0 {
        Err(ErrorMessage(String::from_str("no feeds URLs supplied")))
    } else {
        Ok(())
    }
}

/// What a run does with a feed for one network once it was fetched.
#[derive(Debug, Clone, Copy, PartialEq, Eq, Structural)]
pub enum FeedStep {
    /// The feed did not change: nothing to post.
    NoNewPosts,
    /// First time the feed is seen: its items are marked as seen, not posted.
    InitialSync,
    /// The new items of the feed are posted.
    Announce,
}

/// The step for a fetched feed: nothing when it was not modified; else an
/// initial sync until one has been made, then announcing.
pub fn feed_step(updated: bool, had_initial_sync: bool) -> (r: FeedStep)
    ensures
        !updated ==> r == FeedStep::NoNewPosts,
        updated && !had_initial_sync ==> r == FeedStep::InitialSync,
        updated && had_initial_sync ==> r == FeedStep::Announce,
{
    if !updated {
        FeedStep::NoNewPosts
    } else if had_initial_sync {
        FeedStep::Announce
    } else {
        FeedStep::InitialSync
    }
}

/// Whether to wait before the next post: only when posts are really made
/// and another one follows.
pub fn wait_before_next(writeable: bool, more_to_post: bool) -> (r: bool)
    ensures
        r == (writeable && more_to_post),
{
    writeable && more_to_post
}

impl AccessMode {
    /// Whether what a run learns (cache headers, posts made, items seen) is
    /// saved: not in a dry run.
    pub fn saves_state(self) -> (r: bool)
        ensures
            r == (self == AccessMode::ReadWrite),
    {
        self == AccessMode::ReadWrite
    }
}

} // verus!
