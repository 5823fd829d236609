//! What holds of every ledger, whatever is done with it: entries are only
//! ever added, ids are given out in order, what a connection names stays
//! stored, no dataset is stored twice, every entry names the time of its
//! creation, and the three lists of a transform have one length.

use super::entry::action::Action;
use super::entry::connection::{same_edge, ConnectionView};
use super::entry::data::{same_path_set, DataView};
use super::entry::transform::{same_scripts, TransformView};
use super::model::{
    connection_like, data_like, data_with_id, no_data_in, no_transform_in, spec_parse_md, stamped,
    time_key, transform_like, transform_with_id, StoreView,
};
use crate::error::{DbError, ErrorKind};
use crate::text::{first_where, lemma_first_where, lemma_first_where_unique};
use crate::utils::spec_parse_kv_opt_string;
use crate::version_control::{resolved_hash, ScriptProbe};
use vstd::prelude::*;

verus! {

/// The first match in a list is the first match in every list that begins
/// with it.
pub proof fn lemma_first_where_prefix<A>(s: Seq<A>, t: Seq<A>, p: spec_fn(A) -> bool)
    requires
        s.is_prefix_of(t),
        first_where(s, p) < s.len(),
    ensures
        first_where(t, p) == first_where(s, p),
{
    lemma_first_where(s, p);
    let k = first_where(s, p) as int;
    assert forall|j: int| 0 <= j < k implies !p(#[trigger] t[j]) by {
        assert(t[j] == s[j]);
    }
    assert(t[k] == s[k]);
    lemma_first_where_unique(t, p, k);
}

impl StoreView {
    /// Whether `later` holds all that this ledger holds, in the same places,
    /// and gives out no id that this ledger could still give out.
    pub open spec fn grows_to(self, later: StoreView) -> bool {
        &&& later.db_path == self.db_path
        &&& self.data.is_prefix_of(later.data)
        &&& self.transforms.is_prefix_of(later.transforms)
        &&& self.connections.is_prefix_of(later.connections)
        &&& self.curr_id <= later.curr_id
    }

    /// Whether every id that `c` names is stored.
    pub open spec fn resolves(self, c: ConnectionView) -> bool {
        &&& forall|i: int| 0 <= i < c.in_data_ids.len() ==> self.has_data(#[trigger] c.in_data_ids[i])
        &&& forall|i: int|
            0 <= i < c.out_data_ids.len() ==> self.has_data(#[trigger] c.out_data_ids[i])
        &&& forall|i: int|
            0 <= i < c.in_transform_ids.len() ==> self.has_transform(
                #[trigger] c.in_transform_ids[i],
            )
        &&& forall|i: int|
            0 <= i < c.out_transform_ids.len() ==> self.has_transform(
                #[trigger] c.out_transform_ids[i],
            )
    }

    /// Whether every id that a stored connection names is stored.
    pub open spec fn resolvable(self) -> bool {
        forall|k: int| 0 <= k < self.connections.len() ==> self.resolves(#[trigger] self.connections[k])
    }
}

/// A ledger that has grown still holds every dataset and transform under
/// its id.
pub proof fn lemma_growth_keeps_entries(s: StoreView, later: StoreView, id: u64)
    requires
        s.grows_to(later),
    ensures
        s.has_data(id) ==> later.has_data(id) && later.data_of(id) == s.data_of(id),
        s.has_transform(id) ==> later.has_transform(id) && later.transform_of(id)
            == s.transform_of(id),
{
    if s.has_data(id) {
        lemma_first_where_prefix(s.data, later.data, data_with_id(id));
    }
    if s.has_transform(id) {
        lemma_first_where_prefix(s.transforms, later.transforms, transform_with_id(id));
    }
}

/// What a connection names stays stored while the ledger grows.
pub proof fn lemma_growth_keeps_resolution(s: StoreView, later: StoreView, c: ConnectionView)
    requires
        s.grows_to(later),
        s.resolves(c),
    ensures
        later.resolves(c),
{
    assert forall|i: int| 0 <= i < c.in_data_ids.len() implies later.has_data(
        #[trigger] c.in_data_ids[i],
    ) by {
        lemma_growth_keeps_entries(s, later, c.in_data_ids[i]);
    }
    assert forall|i: int| 0 <= i < c.out_data_ids.len() implies later.has_data(
        #[trigger] c.out_data_ids[i],
    ) by {
        lemma_growth_keeps_entries(s, later, c.out_data_ids[i]);
    }
    assert forall|i: int| 0 <= i < c.in_transform_ids.len() implies later.has_transform(
        #[trigger] c.in_transform_ids[i],
    ) by {
        lemma_growth_keeps_entries(s, later, c.in_transform_ids[i]);
    }
    assert forall|i: int| 0 <= i < c.out_transform_ids.len() implies later.has_transform(
        #[trigger] c.out_transform_ids[i],
    ) by {
        lemma_growth_keeps_entries(s, later, c.out_transform_ids[i]);
    }
}

/// A ledger in which every connection resolves still is one after it has
/// grown without a new connection.
pub proof fn lemma_growth_keeps_resolvable(s: StoreView, later: StoreView)
    requires
        s.grows_to(later),
        s.resolvable(),
        later.connections == s.connections,
    ensures
        later.resolvable(),
{
    assert forall|k: int| 0 <= k < later.connections.len() implies later.resolves(
        #[trigger] later.connections[k],
    ) by {
        assert(s.resolves(s.connections[k]));
        lemma_growth_keeps_resolution(s, later, s.connections[k]);
    }
}

/// Handing in a dataset or a transform adds at most that entry. A stored
/// entry gets the id that was next, and the ledger then counts one further;
/// a refused one leaves the ledger as it was.
pub proof fn lemma_try_add_appends(s: StoreView, d: DataView, t: TransformView)
    requires
        s.curr_id < u64::MAX,
    ensures
        s.grows_to(s.try_add_data(d).0),
        s.try_add_data(d).0.connections == s.connections,
        match s.try_add_data(d).1 {
            Ok(id) => id == s.curr_id && s.try_add_data(d).0.curr_id == s.curr_id + 1
                && s.try_add_data(d).0.data == s.data.push(DataView { id, ..d }),
            Err(_) => s.try_add_data(d).0 == s,
        },
        s.grows_to(s.try_add_transform(t).0),
        s.try_add_transform(t).0.connections == s.connections,
        match s.try_add_transform(t).1 {
            Ok(id) => id == s.curr_id && s.try_add_transform(t).0.curr_id == s.curr_id + 1
                && s.try_add_transform(t).0.transforms == s.transforms.push(
                TransformView { id, ..t },
            ),
            Err(_) => s.try_add_transform(t).0 == s,
        },
{
}

/// Adding a dataset or a transform from what was found on disk adds at
/// most that entry, and keeps every connection resolving.
pub proof fn lemma_add_appends(
    s: StoreView,
    resolved: Seq<Option<Seq<char>>>,
    scripts: Seq<ScriptProbe>,
    args: Option<Seq<char>>,
    hashes: Option<Seq<char>>,
    md: Option<Seq<char>>,
    now: Seq<char>,
)
    requires
        s.curr_id < u64::MAX,
    ensures
        s.grows_to(s.add_data(resolved, md, now).0),
        s.grows_to(s.add_transform(scripts, args, hashes, md, now).0),
        s.add_data(resolved, md, now).1 matches Ok(id) ==> id == s.curr_id && s.add_data(
            resolved,
            md,
            now,
        ).0.curr_id == s.curr_id + 1,
        s.add_transform(scripts, args, hashes, md, now).1 matches Ok(id) ==> id == s.curr_id
            && s.add_transform(scripts, args, hashes, md, now).0.curr_id == s.curr_id + 1,
        s.resolvable() ==> s.add_data(resolved, md, now).0.resolvable() && s.add_transform(
            scripts,
            args,
            hashes,
            md,
            now,
        ).0.resolvable(),
{
    if s.resolvable() {
        lemma_growth_keeps_resolvable(s, s.add_data(resolved, md, now).0);
        lemma_growth_keeps_resolvable(s, s.add_transform(scripts, args, hashes, md, now).0);
    }
}

/// A connection that names an id under which nothing is stored is refused
/// as not found, and the ledger stays as it was.
pub proof fn lemma_connect_refuses_unknown_ids(
    s: StoreView,
    action: Action,
    in_data: Seq<u64>,
    out_data: Seq<u64>,
    in_transform: Seq<u64>,
    out_transform: Seq<u64>,
    md: Option<Seq<char>>,
    now: Seq<char>,
)
    requires
        !s.resolves(
            ConnectionView {
                id: s.curr_id,
                md: stamped(spec_parse_md(md), now),
                action,
                in_data_ids: in_data,
                out_data_ids: out_data,
                in_transform_ids: in_transform,
                out_transform_ids: out_transform,
            },
        ),
    ensures
        s.connect(action, in_data, out_data, in_transform, out_transform, md, now).0 == s,
        s.connect(action, in_data, out_data, in_transform, out_transform, md, now).1 matches Err(e)
            && e.spec_kind() == ErrorKind::NotFound,
{
    lemma_first_where(in_data, no_data_in(s));
    lemma_first_where(out_data, no_data_in(s));
    lemma_first_where(in_transform, no_transform_in(s));
    lemma_first_where(out_transform, no_transform_in(s));
    let a = first_where(in_data, no_data_in(s)) as int;
    let b = first_where(out_data, no_data_in(s)) as int;
    let c = first_where(in_transform, no_transform_in(s)) as int;
    let d = first_where(out_transform, no_transform_in(s)) as int;
    if a >= in_data.len() && b >= out_data.len() && c >= in_transform.len() && d
        >= out_transform.len() {
        assert forall|i: int| 0 <= i < in_data.len() implies s.has_data(#[trigger] in_data[i]) by {
            assert(!no_data_in(s)(in_data[i]));
        }
        assert forall|i: int| 0 <= i < out_data.len() implies s.has_data(
            #[trigger] out_data[i],
        ) by {
            assert(!no_data_in(s)(out_data[i]));
        }
        assert forall|i: int| 0 <= i < in_transform.len() implies s.has_transform(
            #[trigger] in_transform[i],
        ) by {
            assert(!no_transform_in(s)(in_transform[i]));
        }
        assert forall|i: int| 0 <= i < out_transform.len() implies s.has_transform(
            #[trigger] out_transform[i],
        ) by {
            assert(!no_transform_in(s)(out_transform[i]));
        }
    }
}

/// A connection that was stored names stored ids only, and they stay
/// stored: the ledger has grown by that connection alone, every connection
/// in it resolves if every one did before, and the connection has the id
/// that was next.
#[verifier::rlimit(50)]
pub proof fn lemma_connect_resolves(
    s: StoreView,
    action: Action,
    in_data: Seq<u64>,
    out_data: Seq<u64>,
    in_transform: Seq<u64>,
    out_transform: Seq<u64>,
    md: Option<Seq<char>>,
    now: Seq<char>,
)
    requires
        s.curr_id < u64::MAX,
    ensures
        s.grows_to(s.connect(action, in_data, out_data, in_transform, out_transform, md, now).0),
        match s.connect(action, in_data, out_data, in_transform, out_transform, md, now).1 {
            Ok(id) => {
                let later = s.connect(
                    action,
                    in_data,
                    out_data,
                    in_transform,
                    out_transform,
                    md,
                    now,
                ).0;
                &&& id == s.curr_id
                &&& later.curr_id == s.curr_id + 1
                &&& later.data == s.data
                &&& later.transforms == s.transforms
                &&& later.connections.len() == s.connections.len() + 1
                &&& later.connections.last().id == id
                &&& later.connections.last().action == action
                &&& later.connections.last().in_data_ids == in_data
                &&& later.connections.last().out_data_ids == out_data
                &&& later.connections.last().in_transform_ids == in_transform
                &&& later.connections.last().out_transform_ids == out_transform
                &&& later.resolves(later.connections.last())
                &&& s.resolvable() ==> later.resolvable()
            },
            Err(_) => s.connect(action, in_data, out_data, in_transform, out_transform, md, now).0
                == s,
        },
{
    let r = s.connect(action, in_data, out_data, in_transform, out_transform, md, now);
    let later = r.0;
    if r.1 is Ok {
        let edge = later.connections.last();
        lemma_first_where(in_data, no_data_in(s));
        lemma_first_where(out_data, no_data_in(s));
        lemma_first_where(in_transform, no_transform_in(s));
        lemma_first_where(out_transform, no_transform_in(s));
        assert forall|i: int| 0 <= i < in_data.len() implies later.has_data(
            #[trigger] in_data[i],
        ) by {
            assert(!no_data_in(s)(in_data[i]));
        }
        assert forall|i: int| 0 <= i < out_data.len() implies later.has_data(
            #[trigger] out_data[i],
        ) by {
            assert(!no_data_in(s)(out_data[i]));
        }
        assert forall|i: int| 0 <= i < in_transform.len() implies later.has_transform(
            #[trigger] in_transform[i],
        ) by {
            assert(!no_transform_in(s)(in_transform[i]));
        }
        assert forall|i: int| 0 <= i < out_transform.len() implies later.has_transform(
            #[trigger] out_transform[i],
        ) by {
            assert(!no_transform_in(s)(out_transform[i]));
        }
        assert(later.resolves(edge));
        if s.resolvable() {
            assert forall|k: int| 0 <= k < later.connections.len() implies later.resolves(
                #[trigger] later.connections[k],
            ) by {
                if k < s.connections.len() {
                    assert(s.resolves(s.connections[k]));
                    lemma_growth_keeps_resolution(s, later, s.connections[k]);
                }
            }
        }
    }
}

/// A dataset whose paths are those of a stored dataset is refused as
/// already existing, with the id of a stored dataset that has those paths,
/// and the ledger stays as it was.
pub proof fn lemma_twin_is_refused(s: StoreView, d: DataView, k: int)
    requires
        d.paths.len() > 0,
        0 <= k < s.data.len(),
        same_path_set(d.paths, s.data[k].paths),
    ensures
        s.try_add_data(d).0 == s,
        s.try_add_data(d).1 matches Err(e) && e.spec_kind() == ErrorKind::AlreadyExists && (
        exists|j: int|
            0 <= j <= k && same_path_set(d.paths, s.data[j].paths) && e == DbError::DataExists(
                #[trigger] s.data[j].id,
            )),
{
    lemma_first_where(s.data, data_like(d.paths));
    let j = first_where(s.data, data_like(d.paths)) as int;
    if j > k {
        assert(!data_like(d.paths)(s.data[k]));
    }
    assert(data_like(d.paths)(s.data[j]));
}

/// A dataset that was stored cannot be stored again: a dataset with the
/// same paths, in whatever order and with whatever metadata, is then refused
/// with the id that the first got, and the ledger holds the paths once.
pub proof fn lemma_second_insertion_is_refused(s: StoreView, d: DataView, e: DataView)
    requires
        s.curr_id < u64::MAX,
        s.try_add_data(d).1 is Ok,
        same_path_set(d.paths, e.paths),
    ensures
        s.try_add_data(d).0.try_add_data(e) == (
            s.try_add_data(d).0,
            Err::<u64, DbError>(DbError::DataExists(s.curr_id)),
        ),
{
    let later = s.try_add_data(d).0;
    let n = s.data.len() as int;
    lemma_first_where(s.data, data_like(d.paths));
    assert forall|j: int| 0 <= j < n implies !data_like(e.paths)(#[trigger] later.data[j]) by {
        assert(later.data[j] == s.data[j]);
        assert(!data_like(d.paths)(s.data[j]));
    }
    assert(data_like(e.paths)(later.data[n]));
    lemma_first_where_unique(later.data, data_like(e.paths), n);
}

/// One thing that is handed to a ledger for storing.
pub enum Insertion {
    /// A dataset, as `try_add_data` takes it.
    Data(DataView),
    /// A transform, as `try_add_transform` takes it.
    Transform(TransformView),
    /// A connection, as `connect` takes it.
    Connection {
        action: Action,
        in_data: Seq<u64>,
        out_data: Seq<u64>,
        in_transform: Seq<u64>,
        out_transform: Seq<u64>,
        md: Option<Seq<char>>,
        now: Seq<char>,
    },
}

impl StoreView {
    /// The ledger after `what` was handed in, and the id it was stored
    /// under.
    pub open spec fn insert(self, what: Insertion) -> (StoreView, Result<u64, DbError>) {
        match what {
            Insertion::Data(d) => self.try_add_data(d),
            Insertion::Transform(t) => self.try_add_transform(t),
            Insertion::Connection {
                action,
                in_data,
                out_data,
                in_transform,
                out_transform,
                md,
                now,
            } => self.connect(action, in_data, out_data, in_transform, out_transform, md, now),
        }
    }

    /// The ledger after all of `all` were handed in, one after another.
    pub open spec fn insert_all(self, all: Seq<Insertion>) -> StoreView
        decreases all.len(),
    {
        if all.len() == 0 {
            self
        } else {
            self.insert_all(all.drop_last()).insert(all.last()).0
        }
    }
}

/// Where each of a row of insertions into a new ledger succeeds, they get
/// the ids 0, 1, 2 and so on in their order, whatever their kinds, and the
/// ledger then counts as many as were made.
pub proof fn lemma_ids_count_up(db_path: Seq<char>, all: Seq<Insertion>)
    requires
        all.len() < u64::MAX,
        forall|k: int|
            0 <= k < all.len() ==> (#[trigger] StoreView::empty(db_path).insert_all(
                all.take(k),
            )).insert(all[k]).1 is Ok,
    ensures
        StoreView::empty(db_path).insert_all(all).curr_id == all.len(),
        forall|k: int|
            0 <= k < all.len() ==> (#[trigger] StoreView::empty(db_path).insert_all(
                all.take(k),
            )).insert(all[k]).1 == Ok::<u64, DbError>(k as u64),
    decreases all.len(),
{
    let start = StoreView::empty(db_path);
    if all.len() > 0 {
        let n = all.len() - 1;
        let head = all.drop_last();
        assert(head == all.take(n));
        assert forall|k: int| 0 <= k < head.len() implies (#[trigger] start.insert_all(
            head.take(k),
        )).insert(head[k]).1 is Ok by {
            assert(head.take(k) == all.take(k));
            assert(start.insert_all(all.take(k)).insert(all[k]).1 is Ok);
        }
        lemma_ids_count_up(db_path, head);
        let before = start.insert_all(head);
        assert(before.insert(all[n]).1 is Ok);
        assert forall|k: int| 0 <= k < all.len() implies (#[trigger] start.insert_all(
            all.take(k),
        )).insert(all[k]).1 == Ok::<u64, DbError>(k as u64) by {
            if k < n {
                assert(head.take(k) == all.take(k));
                assert(start.insert_all(head.take(k)).insert(head[k]).1 == Ok::<u64, DbError>(
                    k as u64,
                ));
            }
        }
    }
}

/// The transform that chains two stored transforms has the metadata of the
/// first, with that of the second laid over it, and the given metadata laid
/// over both. The time of the chaining is part of the given metadata, and
/// it is the time that the caller names where the caller names one.
#[verifier::rlimit(50)]
pub proof fn lemma_chain_of_two_lays_metadata_over(
    s: StoreView,
    first: u64,
    second: u64,
    md: Option<Seq<char>>,
    now: Seq<char>,
)
    requires
        s.curr_id < u64::MAX - 1,
        s.chain(seq![first, second], md, now).1 is Ok,
    ensures
        s.has_transform(first),
        s.has_transform(second),
        ({
            let later = s.chain(seq![first, second], md, now).0;
            let made = later.transforms[s.transforms.len() as int];
            let given = stamped(spec_parse_md(md), now);
            &&& later.transforms.len() == s.transforms.len() + 1
            &&& s.chain(seq![first, second], md, now).1 matches Ok(ids) && ids.0 == made.id
            &&& made.md == s.transform_of(first).md.union_prefer_right(
                s.transform_of(second).md,
            ).union_prefer_right(given)
            &&& made.md[time_key()] == given[time_key()]
            &&& spec_parse_md(md).contains_key(time_key()) ==> made.md[time_key()]
                == spec_parse_md(md)[time_key()]
            &&& !spec_parse_md(md).contains_key(time_key()) ==> made.md[time_key()] == now
        }),
{
    let ids = seq![first, second];
    lemma_first_where(ids, no_transform_in(s));
    assert(!no_transform_in(s)(ids[0]));
    assert(!no_transform_in(s)(ids[1]));
    assert(ids.drop_last() == seq![first]);
    assert(seq![first].drop_last() == Seq::<u64>::empty());
    assert(ids.last() == second);
    assert(seq![first].last() == first);
    let none = s.chained(Seq::<u64>::empty());
    let one = s.chained(seq![first]);
    let two = s.chained(ids);
    assert(one.md == none.md.union_prefer_right(s.transform_of(first).md));
    assert(one.md =~= s.transform_of(first).md);
    assert(two.md == one.md.union_prefer_right(s.transform_of(second).md));
    let given = stamped(spec_parse_md(md), now);
    let added = s.try_add_transform(TransformView { md: two.md.union_prefer_right(given), ..two });
    lemma_connect_resolves(
        added.0,
        Action::Chain,
        Seq::empty(),
        Seq::empty(),
        ids,
        seq![added.1->Ok_0],
        md,
        now,
    );
}

/// Chaining, linking and applying add at most one entry and one
/// connection, give them the two ids that were next, and keep every
/// connection resolving.
#[verifier::rlimit(50)]
pub proof fn lemma_composites_append(
    s: StoreView,
    ids: Seq<u64>,
    transform_id: u64,
    paths: Seq<Seq<char>>,
    md: Option<Seq<char>>,
    now: Seq<char>,
)
    requires
        s.curr_id < u64::MAX - 1,
    ensures
        s.grows_to(s.chain(ids, md, now).0),
        s.grows_to(s.link(ids, md, now).0),
        s.grows_to(s.apply(transform_id, ids, md, now, paths).0),
        s.chain(ids, md, now).1 matches Ok(made) ==> made == (
            s.curr_id,
            (s.curr_id + 1) as u64,
        ) && s.chain(ids, md, now).0.curr_id == s.curr_id + 2,
        s.link(ids, md, now).1 matches Ok(made) ==> made == (s.curr_id, (s.curr_id + 1) as u64)
            && s.link(ids, md, now).0.curr_id == s.curr_id + 2,
        s.apply(transform_id, ids, md, now, paths).1 matches Ok(made) ==> made == (
            s.curr_id,
            (s.curr_id + 1) as u64,
        ) && s.apply(transform_id, ids, md, now, paths).0.curr_id == s.curr_id + 2,
        s.resolvable() ==> s.chain(ids, md, now).0.resolvable() && s.link(
            ids,
            md,
            now,
        ).0.resolvable() && s.apply(transform_id, ids, md, now, paths).0.resolvable(),
{
    let given = stamped(spec_parse_md(md), now);
    let whole = s.chained(ids);
    let chained = s.try_add_transform(TransformView { md: whole.md.union_prefer_right(given), ..whole });
    if chained.1 is Ok {
        lemma_connect_resolves(
            chained.0,
            Action::Chain,
            Seq::empty(),
            Seq::empty(),
            ids,
            seq![chained.1->Ok_0],
            md,
            now,
        );
        if s.resolvable() {
            lemma_growth_keeps_resolvable(s, chained.0);
        }
    }
    let all = s.linked(ids);
    let linked = s.try_add_data(DataView { md: all.md.union_prefer_right(given), ..all });
    if linked.1 is Ok {
        lemma_connect_resolves(
            linked.0,
            Action::Link,
            ids,
            seq![linked.1->Ok_0],
            Seq::empty(),
            Seq::empty(),
            md,
            now,
        );
        if s.resolvable() {
            lemma_growth_keeps_resolvable(s, linked.0);
        }
    }
    let applied = s.try_add_data(DataView { id: s.curr_id, md: given, paths });
    if applied.1 is Ok {
        lemma_connect_resolves(
            applied.0,
            Action::Apply,
            ids,
            seq![applied.1->Ok_0],
            seq![transform_id],
            Seq::empty(),
            md,
            now,
        );
        if s.resolvable() {
            lemma_growth_keeps_resolvable(s, applied.0);
        }
    }
}


/// Whether metadata names the time of creation.
pub open spec fn has_time(md: Map<Seq<char>, Seq<char>>) -> bool {
    md.contains_key(time_key())
}

/// Whether the three lists of a transform have one length.
pub open spec fn aligned(t: TransformView) -> bool {
    &&& t.script_args.len() == t.script_paths.len()
    &&& t.script_git_hashes.len() == t.script_paths.len()
}

/// One operation that changes a ledger.
pub enum Operation {
    /// `add_data`.
    AddData { resolved: Seq<Option<Seq<char>>>, md: Option<Seq<char>>, now: Seq<char> },
    /// `add_transform`.
    AddTransform {
        scripts: Seq<ScriptProbe>,
        args: Option<Seq<char>>,
        hashes: Option<Seq<char>>,
        md: Option<Seq<char>>,
        now: Seq<char>,
    },
    /// `connect`.
    Connect {
        action: Action,
        in_data: Seq<u64>,
        out_data: Seq<u64>,
        in_transform: Seq<u64>,
        out_transform: Seq<u64>,
        md: Option<Seq<char>>,
        now: Seq<char>,
    },
    /// `apply`.
    Apply {
        transform_id: u64,
        data_ids: Seq<u64>,
        md: Option<Seq<char>>,
        now: Seq<char>,
        paths: Seq<Seq<char>>,
    },
    /// `chain`.
    Chain { ids: Seq<u64>, md: Option<Seq<char>>, now: Seq<char> },
    /// `link`.
    Link { ids: Seq<u64>, md: Option<Seq<char>>, now: Seq<char> },
}

impl StoreView {
    /// Whether every id in the ledger was given out by it: each is below
    /// the id that comes next, and no two entries share one.
    pub open spec fn numbered(self) -> bool {
        &&& forall|i: int| 0 <= i < self.data.len() ==> (#[trigger] self.data[i]).id < self.curr_id
        &&& forall|i: int|
            0 <= i < self.transforms.len() ==> (#[trigger] self.transforms[i]).id < self.curr_id
        &&& forall|i: int|
            0 <= i < self.connections.len() ==> (#[trigger] self.connections[i]).id < self.curr_id
        &&& forall|i: int, j: int|
            0 <= i < j < self.data.len() ==> (#[trigger] self.data[i]).id != (
            #[trigger] self.data[j]).id
        &&& forall|i: int, j: int|
            0 <= i < j < self.transforms.len() ==> (#[trigger] self.transforms[i]).id != (
            #[trigger] self.transforms[j]).id
        &&& forall|i: int, j: int|
            0 <= i < j < self.connections.len() ==> (#[trigger] self.connections[i]).id != (
            #[trigger] self.connections[j]).id
        &&& forall|i: int, j: int|
            0 <= i < self.data.len() && 0 <= j < self.transforms.len() ==> (
            #[trigger] self.data[i]).id != (#[trigger] self.transforms[j]).id
        &&& forall|i: int, j: int|
            0 <= i < self.data.len() && 0 <= j < self.connections.len() ==> (
            #[trigger] self.data[i]).id != (#[trigger] self.connections[j]).id
        &&& forall|i: int, j: int|
            0 <= i < self.transforms.len() && 0 <= j < self.connections.len() ==> (
            #[trigger] self.transforms[i]).id != (#[trigger] self.connections[j]).id
    }

    /// Whether no entry is stored twice: no two datasets hold the same
    /// paths, no two transforms run the same scripts, and no two connections
    /// record the same edge.
    pub open spec fn without_twins(self) -> bool {
        &&& forall|i: int, j: int|
            0 <= i < j < self.data.len() ==> !same_path_set(
                (#[trigger] self.data[i]).paths,
                (#[trigger] self.data[j]).paths,
            )
        &&& forall|i: int, j: int|
            0 <= i < j < self.transforms.len() ==> !same_scripts(
                #[trigger] self.transforms[i],
                #[trigger] self.transforms[j],
            )
        &&& forall|i: int, j: int|
            0 <= i < j < self.connections.len() ==> !same_edge(
                #[trigger] self.connections[i],
                #[trigger] self.connections[j],
            )
    }

    /// Whether the entries of the ledger fit together: the ids stay apart,
    /// nothing is stored twice, and every connection names stored entries.
    pub open spec fn consistent(self) -> bool {
        &&& self.numbered()
        &&& self.without_twins()
        &&& self.resolvable()
    }

    /// Whether every entry is as an entry has to be: its metadata names the
    /// time of its creation, and a transform has an argument text and a
    /// commit, given or not, for each of its scripts.
    pub open spec fn shaped(self) -> bool {
        &&& forall|i: int| 0 <= i < self.data.len() ==> has_time((#[trigger] self.data[i]).md)
        &&& forall|i: int|
            0 <= i < self.transforms.len() ==> has_time((#[trigger] self.transforms[i]).md)
                && aligned(self.transforms[i])
        &&& forall|i: int|
            0 <= i < self.connections.len() ==> has_time((#[trigger] self.connections[i]).md)
    }

    /// Whether the ledger is as its own operations leave it.
    pub open spec fn sound(self) -> bool {
        &&& self.consistent()
        &&& self.shaped()
    }

    /// The ledger after the operation `op`.
    pub open spec fn perform(self, op: Operation) -> StoreView {
        match op {
            Operation::AddData { resolved, md, now } => self.add_data(resolved, md, now).0,
            Operation::AddTransform { scripts, args, hashes, md, now } => self.add_transform(
                scripts,
                args,
                hashes,
                md,
                now,
            ).0,
            Operation::Connect {
                action,
                in_data,
                out_data,
                in_transform,
                out_transform,
                md,
                now,
            } => self.connect(action, in_data, out_data, in_transform, out_transform, md, now).0,
            Operation::Apply { transform_id, data_ids, md, now, paths } => self.apply(
                transform_id,
                data_ids,
                md,
                now,
                paths,
            ).0,
            Operation::Chain { ids, md, now } => self.chain(ids, md, now).0,
            Operation::Link { ids, md, now } => self.link(ids, md, now).0,
        }
    }
}

/// Handing in a dataset leaves a consistent ledger consistent.
#[verifier::rlimit(50)]
pub proof fn lemma_try_add_data_keeps_consistent(s: StoreView, d: DataView)
    requires
        s.consistent(),
        s.curr_id < u64::MAX,
    ensures
        s.try_add_data(d).0.consistent(),
{
    let later = s.try_add_data(d).0;
    if s.try_add_data(d).1 is Ok {
        let n = s.data.len() as int;
        lemma_first_where(s.data, data_like(d.paths));
        assert forall|i: int, j: int| 0 <= i < j < later.data.len() implies !same_path_set(
            (#[trigger] later.data[i]).paths,
            (#[trigger] later.data[j]).paths,
        ) by {
            if j == n {
                assert(!data_like(d.paths)(s.data[i]));
            } else {
                assert(later.data[i] == s.data[i] && later.data[j] == s.data[j]);
            }
        }
        assert forall|i: int| 0 <= i < later.data.len() implies (#[trigger] later.data[i]).id
            < later.curr_id by {
            if i < n {
                assert(later.data[i] == s.data[i]);
            }
        }
        assert forall|i: int, j: int| 0 <= i < j < later.data.len() implies (
        #[trigger] later.data[i]).id != (#[trigger] later.data[j]).id by {
            assert(later.data[i] == s.data[i]);
            if j < n {
                assert(later.data[j] == s.data[j]);
            }
        }
        assert forall|i: int, j: int|
            0 <= i < later.data.len() && 0 <= j < later.transforms.len() implies (
        #[trigger] later.data[i]).id != (#[trigger] later.transforms[j]).id by {
            if i < n {
                assert(later.data[i] == s.data[i]);
            }
        }
        assert forall|i: int, j: int|
            0 <= i < later.data.len() && 0 <= j < later.connections.len() implies (
        #[trigger] later.data[i]).id != (#[trigger] later.connections[j]).id by {
            if i < n {
                assert(later.data[i] == s.data[i]);
            }
        }
        lemma_growth_keeps_resolvable(s, later);
    }
}

/// Handing in a transform leaves a consistent ledger consistent.
#[verifier::rlimit(50)]
pub proof fn lemma_try_add_transform_keeps_consistent(s: StoreView, t: TransformView)
    requires
        s.consistent(),
        s.curr_id < u64::MAX,
    ensures
        s.try_add_transform(t).0.consistent(),
{
    let later = s.try_add_transform(t).0;
    if s.try_add_transform(t).1 is Ok {
        let n = s.transforms.len() as int;
        lemma_first_where(s.transforms, transform_like(t));
        assert forall|i: int, j: int| 0 <= i < j < later.transforms.len() implies !same_scripts(
            #[trigger] later.transforms[i],
            #[trigger] later.transforms[j],
        ) by {
            if j == n {
                assert(!transform_like(t)(s.transforms[i]));
            } else {
                assert(later.transforms[i] == s.transforms[i] && later.transforms[j]
                    == s.transforms[j]);
            }
        }
        assert forall|i: int| 0 <= i < later.transforms.len() implies (
        #[trigger] later.transforms[i]).id < later.curr_id by {
            if i < n {
                assert(later.transforms[i] == s.transforms[i]);
            }
        }
        assert forall|i: int, j: int| 0 <= i < j < later.transforms.len() implies (
        #[trigger] later.transforms[i]).id != (#[trigger] later.transforms[j]).id by {
            assert(later.transforms[i] == s.transforms[i]);
            if j < n {
                assert(later.transforms[j] == s.transforms[j]);
            }
        }
        assert forall|i: int, j: int|
            0 <= i < later.data.len() && 0 <= j < later.transforms.len() implies (
        #[trigger] later.data[i]).id != (#[trigger] later.transforms[j]).id by {
            if j < n {
                assert(later.transforms[j] == s.transforms[j]);
            }
        }
        assert forall|i: int, j: int|
            0 <= i < later.transforms.len() && 0 <= j < later.connections.len() implies (
        #[trigger] later.transforms[i]).id != (#[trigger] later.connections[j]).id by {
            if i < n {
                assert(later.transforms[i] == s.transforms[i]);
            }
        }
        lemma_growth_keeps_resolvable(s, later);
    }
}

/// Adding a connection leaves a consistent ledger consistent.
#[verifier::rlimit(50)]
pub proof fn lemma_connect_keeps_consistent(
    s: StoreView,
    action: Action,
    in_data: Seq<u64>,
    out_data: Seq<u64>,
    in_transform: Seq<u64>,
    out_transform: Seq<u64>,
    md: Option<Seq<char>>,
    now: Seq<char>,
)
    requires
        s.consistent(),
        s.curr_id < u64::MAX,
    ensures
        s.connect(action, in_data, out_data, in_transform, out_transform, md, now).0.consistent(),
{
    let r = s.connect(action, in_data, out_data, in_transform, out_transform, md, now);
    let later = r.0;
    lemma_connect_resolves(s, action, in_data, out_data, in_transform, out_transform, md, now);
    if r.1 is Ok {
        let n = s.connections.len() as int;
        let edge = later.connections[n];
        lemma_first_where(s.connections, connection_like(edge));
        assert forall|i: int, j: int| 0 <= i < j < later.connections.len() implies !same_edge(
            #[trigger] later.connections[i],
            #[trigger] later.connections[j],
        ) by {
            if j == n {
                assert(!connection_like(edge)(s.connections[i]));
            } else {
                assert(later.connections[i] == s.connections[i] && later.connections[j]
                    == s.connections[j]);
            }
        }
        assert forall|i: int| 0 <= i < later.connections.len() implies (
        #[trigger] later.connections[i]).id < later.curr_id by {
            if i < n {
                assert(later.connections[i] == s.connections[i]);
            }
        }
        assert forall|i: int, j: int| 0 <= i < j < later.connections.len() implies (
        #[trigger] later.connections[i]).id != (#[trigger] later.connections[j]).id by {
            assert(later.connections[i] == s.connections[i]);
            if j < n {
                assert(later.connections[j] == s.connections[j]);
            }
        }
        assert forall|i: int, j: int|
            0 <= i < later.data.len() && 0 <= j < later.connections.len() implies (
        #[trigger] later.data[i]).id != (#[trigger] later.connections[j]).id by {
            if j < n {
                assert(later.connections[j] == s.connections[j]);
            }
        }
        assert forall|i: int, j: int|
            0 <= i < later.transforms.len() && 0 <= j < later.connections.len() implies (
        #[trigger] later.transforms[i]).id != (#[trigger] later.connections[j]).id by {
            if j < n {
                assert(later.connections[j] == s.connections[j]);
            }
        }
    }
}

/// Adding a dataset or a transform from what was found on disk leaves a
/// consistent ledger consistent.
pub proof fn lemma_add_keeps_consistent(
    s: StoreView,
    resolved: Seq<Option<Seq<char>>>,
    scripts: Seq<ScriptProbe>,
    args: Option<Seq<char>>,
    hashes: Option<Seq<char>>,
    md: Option<Seq<char>>,
    now: Seq<char>,
)
    requires
        s.consistent(),
        s.curr_id < u64::MAX,
    ensures
        s.add_data(resolved, md, now).0.consistent(),
        s.add_transform(scripts, args, hashes, md, now).0.consistent(),
{
    lemma_try_add_data_keeps_consistent(
        s,
        DataView {
            id: s.curr_id,
            md: stamped(spec_parse_md(md), now),
            paths: Seq::new(resolved.len(), |i: int| resolved[i]->0),
        },
    );
    let n = scripts.len();
    let hints = spec_parse_kv_opt_string(hashes, Some(n as usize));
    lemma_try_add_transform_keeps_consistent(
        s,
        TransformView {
            id: s.curr_id,
            md: stamped(spec_parse_md(md), now),
            script_paths: Seq::new(n, |i: int| scripts[i].absolute@),
            script_args: spec_parse_kv_opt_string(args, Some(n as usize)),
            script_git_hashes: Seq::new(
                n,
                |i: int| resolved_hash(hints[i], scripts[i].repository),
            ),
        },
    );
}

/// Storing what a transform made leaves a consistent ledger consistent.
pub proof fn lemma_apply_keeps_consistent(
    s: StoreView,
    transform_id: u64,
    data_ids: Seq<u64>,
    md: Option<Seq<char>>,
    now: Seq<char>,
    paths: Seq<Seq<char>>,
)
    requires
        s.consistent(),
        s.curr_id < u64::MAX - 1,
    ensures
        s.apply(transform_id, data_ids, md, now, paths).0.consistent(),
{
    let d = DataView { id: s.curr_id, md: stamped(spec_parse_md(md), now), paths };
    lemma_try_add_data_keeps_consistent(s, d);
    let added = s.try_add_data(d);
    if added.1 is Ok {
        lemma_connect_keeps_consistent(
            added.0,
            Action::Apply,
            data_ids,
            seq![added.1->Ok_0],
            seq![transform_id],
            Seq::empty(),
            md,
            now,
        );
    }
}

/// Chaining transforms leaves a consistent ledger consistent.
pub proof fn lemma_chain_keeps_consistent(
    s: StoreView,
    ids: Seq<u64>,
    md: Option<Seq<char>>,
    now: Seq<char>,
)
    requires
        s.consistent(),
        s.curr_id < u64::MAX - 1,
    ensures
        s.chain(ids, md, now).0.consistent(),
{
    let whole = s.chained(ids);
    let t = TransformView {
        md: whole.md.union_prefer_right(stamped(spec_parse_md(md), now)),
        ..whole
    };
    lemma_try_add_transform_keeps_consistent(s, t);
    let added = s.try_add_transform(t);
    if added.1 is Ok {
        lemma_connect_keeps_consistent(
            added.0,
            Action::Chain,
            Seq::empty(),
            Seq::empty(),
            ids,
            seq![added.1->Ok_0],
            md,
            now,
        );
    }
}

/// Linking datasets leaves a consistent ledger consistent.
pub proof fn lemma_link_keeps_consistent(
    s: StoreView,
    ids: Seq<u64>,
    md: Option<Seq<char>>,
    now: Seq<char>,
)
    requires
        s.consistent(),
        s.curr_id < u64::MAX - 1,
    ensures
        s.link(ids, md, now).0.consistent(),
{
    let whole = s.linked(ids);
    let d = DataView { md: whole.md.union_prefer_right(stamped(spec_parse_md(md), now)), ..whole };
    lemma_try_add_data_keeps_consistent(s, d);
    let added = s.try_add_data(d);
    if added.1 is Ok {
        lemma_connect_keeps_consistent(
            added.0,
            Action::Link,
            ids,
            seq![added.1->Ok_0],
            Seq::empty(),
            Seq::empty(),
            md,
            now,
        );
    }
}

/// Handing in a dataset whose metadata names its time, or a transform
/// whose metadata does and whose lists have one length, leaves every entry
/// of the ledger in shape.
pub proof fn lemma_try_add_keeps_shaped(s: StoreView, d: DataView, t: TransformView)
    requires
        s.shaped(),
    ensures
        has_time(d.md) ==> s.try_add_data(d).0.shaped(),
        has_time(t.md) && aligned(t) ==> s.try_add_transform(t).0.shaped(),
{
    if has_time(d.md) {
        let later = s.try_add_data(d).0;
        assert forall|i: int| 0 <= i < later.data.len() implies has_time(
            (#[trigger] later.data[i]).md,
        ) by {
            if i < s.data.len() {
                assert(later.data[i] == s.data[i]);
            }
        }
    }
    if has_time(t.md) && aligned(t) {
        let later = s.try_add_transform(t).0;
        assert forall|i: int| 0 <= i < later.transforms.len() implies has_time(
            (#[trigger] later.transforms[i]).md,
        ) && aligned(later.transforms[i]) by {
            if i < s.transforms.len() {
                assert(later.transforms[i] == s.transforms[i]);
            }
        }
    }
}

/// Adding a connection leaves every entry of the ledger in shape.
pub proof fn lemma_connect_keeps_shaped(
    s: StoreView,
    action: Action,
    in_data: Seq<u64>,
    out_data: Seq<u64>,
    in_transform: Seq<u64>,
    out_transform: Seq<u64>,
    md: Option<Seq<char>>,
    now: Seq<char>,
)
    requires
        s.shaped(),
    ensures
        s.connect(action, in_data, out_data, in_transform, out_transform, md, now).0.shaped(),
{
    let later = s.connect(action, in_data, out_data, in_transform, out_transform, md, now).0;
    assert forall|i: int| 0 <= i < later.connections.len() implies has_time(
        (#[trigger] later.connections[i]).md,
    ) by {
        if i < s.connections.len() {
            assert(later.connections[i] == s.connections[i]);
        }
    }
}

/// Adding a dataset or a transform from what was found on disk leaves
/// every entry of the ledger in shape: the new entry is stamped with its
/// time, and a new transform has one argument text and one commit, given or
/// not, for each script.
pub proof fn lemma_add_keeps_shaped(
    s: StoreView,
    resolved: Seq<Option<Seq<char>>>,
    scripts: Seq<ScriptProbe>,
    args: Option<Seq<char>>,
    hashes: Option<Seq<char>>,
    md: Option<Seq<char>>,
    now: Seq<char>,
)
    requires
        s.shaped(),
    ensures
        s.add_data(resolved, md, now).0.shaped(),
        s.add_transform(scripts, args, hashes, md, now).0.shaped(),
{
    let d = DataView {
        id: s.curr_id,
        md: stamped(spec_parse_md(md), now),
        paths: Seq::new(resolved.len(), |i: int| resolved[i]->0),
    };
    let n = scripts.len();
    let hints = spec_parse_kv_opt_string(hashes, Some(n as usize));
    let t = TransformView {
        id: s.curr_id,
        md: stamped(spec_parse_md(md), now),
        script_paths: Seq::new(n, |i: int| scripts[i].absolute@),
        script_args: spec_parse_kv_opt_string(args, Some(n as usize)),
        script_git_hashes: Seq::new(n, |i: int| resolved_hash(hints[i], scripts[i].repository)),
    };
    lemma_try_add_keeps_shaped(s, d, t);
}

/// The transform that chains stored transforms has one argument text and
/// one commit, given or not, for each of its scripts, where the stored
/// transforms have.
pub proof fn lemma_chained_is_aligned(s: StoreView, ids: Seq<u64>)
    requires
        s.shaped(),
        forall|i: int| 0 <= i < ids.len() ==> s.has_transform(#[trigger] ids[i]),
    ensures
        aligned(s.chained(ids)),
    decreases ids.len(),
{
    if ids.len() > 0 {
        let head = ids.drop_last();
        assert forall|i: int| 0 <= i < head.len() implies s.has_transform(#[trigger] head[i]) by {
            assert(head[i] == ids[i]);
        }
        lemma_chained_is_aligned(s, head);
        assert(s.has_transform(ids[ids.len() - 1]));
        lemma_first_where(s.transforms, transform_with_id(ids.last()));
        let k = first_where(s.transforms, transform_with_id(ids.last())) as int;
        assert(aligned(s.transforms[k]));
    }
}

/// Chaining, linking and applying leave every entry of the ledger in
/// shape.
pub proof fn lemma_composites_keep_shaped(
    s: StoreView,
    ids: Seq<u64>,
    transform_id: u64,
    paths: Seq<Seq<char>>,
    md: Option<Seq<char>>,
    now: Seq<char>,
)
    requires
        s.shaped(),
    ensures
        s.chain(ids, md, now).0.shaped(),
        s.link(ids, md, now).0.shaped(),
        s.apply(transform_id, ids, md, now, paths).0.shaped(),
{
    let given = stamped(spec_parse_md(md), now);
    let none = TransformView {
        id: 0,
        md: given,
        script_paths: Seq::empty(),
        script_args: Seq::empty(),
        script_git_hashes: Seq::empty(),
    };
    let whole = s.chained(ids);
    let t = TransformView { md: whole.md.union_prefer_right(given), ..whole };
    lemma_first_where(ids, no_transform_in(s));
    if first_where(ids, no_transform_in(s)) >= ids.len() {
        assert forall|i: int| 0 <= i < ids.len() implies s.has_transform(#[trigger] ids[i]) by {
            assert(!no_transform_in(s)(ids[i]));
        }
        lemma_chained_is_aligned(s, ids);
        lemma_try_add_keeps_shaped(s, DataView { id: 0, md: given, paths }, t);
        let added = s.try_add_transform(t);
        if added.1 is Ok {
            lemma_connect_keeps_shaped(
                added.0,
                Action::Chain,
                Seq::empty(),
                Seq::empty(),
                ids,
                seq![added.1->Ok_0],
                md,
                now,
            );
        }
    }
    let all = s.linked(ids);
    let d = DataView { md: all.md.union_prefer_right(given), ..all };
    lemma_try_add_keeps_shaped(s, d, none);
    let linked = s.try_add_data(d);
    if linked.1 is Ok {
        lemma_connect_keeps_shaped(
            linked.0,
            Action::Link,
            ids,
            seq![linked.1->Ok_0],
            Seq::empty(),
            Seq::empty(),
            md,
            now,
        );
    }
    let made = DataView { id: s.curr_id, md: given, paths };
    lemma_try_add_keeps_shaped(s, made, none);
    let applied = s.try_add_data(made);
    if applied.1 is Ok {
        lemma_connect_keeps_shaped(
            applied.0,
            Action::Apply,
            ids,
            seq![applied.1->Ok_0],
            seq![transform_id],
            Seq::empty(),
            md,
            now,
        );
    }
}

/// A new ledger is sound.
pub proof fn lemma_new_ledger_is_sound(db_path: Seq<char>)
    ensures
        StoreView::empty(db_path).sound(),
{
}

/// Every operation leaves a sound ledger sound, and takes nothing away
/// from it: whatever is done with a ledger, its ids stay apart, nothing is
/// stored twice, every connection names stored entries only, every entry
/// names the time of its creation, and the three lists of every transform
/// have one length.
pub proof fn lemma_operations_keep_sound(s: StoreView, op: Operation)
    requires
        s.sound(),
        s.curr_id < u64::MAX - 1,
    ensures
        s.perform(op).sound(),
        s.grows_to(s.perform(op)),
{
    match op {
        Operation::AddData { resolved, md, now } => {
            lemma_add_keeps_consistent(s, resolved, Seq::empty(), None, None, md, now);
            lemma_add_keeps_shaped(s, resolved, Seq::empty(), None, None, md, now);
            lemma_add_appends(s, resolved, Seq::empty(), None, None, md, now);
        },
        Operation::AddTransform { scripts, args, hashes, md, now } => {
            lemma_add_keeps_consistent(s, Seq::empty(), scripts, args, hashes, md, now);
            lemma_add_keeps_shaped(s, Seq::empty(), scripts, args, hashes, md, now);
            lemma_add_appends(s, Seq::empty(), scripts, args, hashes, md, now);
        },
        Operation::Connect { action, in_data, out_data, in_transform, out_transform, md, now } => {
            lemma_connect_keeps_consistent(
                s,
                action,
                in_data,
                out_data,
                in_transform,
                out_transform,
                md,
                now,
            );
            lemma_connect_keeps_shaped(
                s,
                action,
                in_data,
                out_data,
                in_transform,
                out_transform,
                md,
                now,
            );
            lemma_connect_resolves(
                s,
                action,
                in_data,
                out_data,
                in_transform,
                out_transform,
                md,
                now,
            );
        },
        Operation::Apply { transform_id, data_ids, md, now, paths } => {
            lemma_apply_keeps_consistent(s, transform_id, data_ids, md, now, paths);
            lemma_composites_keep_shaped(s, data_ids, transform_id, paths, md, now);
            lemma_composites_append(s, data_ids, transform_id, paths, md, now);
        },
        Operation::Chain { ids, md, now } => {
            lemma_chain_keeps_consistent(s, ids, md, now);
            lemma_composites_keep_shaped(s, ids, 0, Seq::empty(), md, now);
            lemma_composites_append(s, ids, 0, Seq::empty(), md, now);
        },
        Operation::Link { ids, md, now } => {
            lemma_link_keeps_consistent(s, ids, md, now);
            lemma_composites_keep_shaped(s, ids, 0, Seq::empty(), md, now);
            lemma_composites_append(s, ids, 0, Seq::empty(), md, now);
        },
    }
}

} // verus!
