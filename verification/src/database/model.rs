//! What a ledger holds and what each operation makes of it, apart from how
//! the ledger is kept in memory.

use super::entry::action::Action;
use super::entry::connection::{same_edge, Connection, ConnectionView};
use super::entry::data::{same_path_set, Data, DataView};
use super::entry::transform::{same_scripts, Transform, TransformView};
use crate::error::DbError;
use crate::execution::{ExecutionView, RequestView};
use crate::metadata::entries_map;
use crate::text::{first_index, first_where, split};
use crate::utils::spec_parse_kv_opt_string;
use crate::version_control::{resolved_hash, ScriptProbe};
use vstd::prelude::*;

verus! {

/// The test "is the dataset with id `id`".
pub open spec fn data_with_id(id: u64) -> spec_fn(DataView) -> bool {
    |d: DataView| d.id == id
}

/// The test "is the transform with id `id`".
pub open spec fn transform_with_id(id: u64) -> spec_fn(TransformView) -> bool {
    |t: TransformView| t.id == id
}

/// The test "holds the same paths as `paths`".
pub open spec fn data_like(paths: Seq<Seq<char>>) -> spec_fn(DataView) -> bool {
    |d: DataView| same_path_set(paths, d.paths)
}

/// The test "runs the same scripts as `t`".
pub open spec fn transform_like(t: TransformView) -> spec_fn(TransformView) -> bool {
    |x: TransformView| same_scripts(t, x)
}

/// The test "records the same edge as `c`".
pub open spec fn connection_like(c: ConnectionView) -> spec_fn(ConnectionView) -> bool {
    |x: ConnectionView| same_edge(c, x)
}

/// The view of a dataset.
pub open spec fn view_of_data() -> spec_fn(Data) -> DataView {
    |d: Data| d@
}

/// The view of a transform.
pub open spec fn view_of_transform() -> spec_fn(Transform) -> TransformView {
    |t: Transform| t@
}

/// The view of a connection.
pub open spec fn view_of_connection() -> spec_fn(Connection) -> ConnectionView {
    |c: Connection| c@
}

/// The views of a list of datasets.
pub open spec fn data_views(s: Seq<Data>) -> Seq<DataView> {
    s.map_values(view_of_data())
}

/// The views of a list of transforms.
pub open spec fn transform_views(s: Seq<Transform>) -> Seq<TransformView> {
    s.map_values(view_of_transform())
}

/// The views of a list of connections.
pub open spec fn connection_views(s: Seq<Connection>) -> Seq<ConnectionView> {
    s.map_values(view_of_connection())
}

/// The key under which an entry's time of creation is kept.
pub open spec fn time_key() -> Seq<char> {
    "time"@
}

/// The key of one `key=value` piece of a metadata text: what precedes the
/// first `=`, or the whole piece where it holds none.
pub open spec fn md_key(piece: Seq<char>) -> Seq<char> {
    piece.take(first_index(piece, '=') as int)
}

/// The value of one `key=value` piece of a metadata text: what follows the
/// first `=`, or nothing where the piece holds none.
pub open spec fn md_value(piece: Seq<char>) -> Seq<char> {
    let i = first_index(piece, '=') as int;
    if i < piece.len() {
        piece.skip(i + 1)
    } else {
        Seq::empty()
    }
}

/// The key and value of one piece of a metadata text.
pub open spec fn md_pair(piece: Seq<char>) -> (Seq<char>, Seq<char>) {
    (md_key(piece), md_value(piece))
}

/// What a metadata text says: its pieces are separated by `;`, each piece
/// is `key=value`, and of two pieces with one key the later counts. No text
/// says nothing.
pub open spec fn spec_parse_md(text: Option<Seq<char>>) -> Map<Seq<char>, Seq<char>> {
    match text {
        Some(t) => entries_map(split(t, ';').map_values(|piece: Seq<char>| md_pair(piece))),
        None => Map::empty(),
    }
}

/// Metadata with the time of creation added, unless it names one itself.
pub open spec fn stamped(md: Map<Seq<char>, Seq<char>>, now: Seq<char>) -> Map<
    Seq<char>,
    Seq<char>,
> {
    if md.contains_key(time_key()) {
        md
    } else {
        md.insert(time_key(), now)
    }
}

/// The characters of an optional text.
pub open spec fn optional_view(s: Option<&str>) -> Option<Seq<char>> {
    match s {
        Some(t) => Some(t@),
        None => None,
    }
}

/// The test "stands for a path that does not exist".
pub open spec fn is_missing() -> spec_fn(Option<Seq<char>>) -> bool {
    |p: Option<Seq<char>>| p is None
}

/// The test "cannot be run": the path does not exist or is no regular file.
pub open spec fn cannot_run() -> spec_fn(ScriptProbe) -> bool {
    |p: ScriptProbe| !p.exists || !p.is_file
}

/// The test "is not the id of a dataset of `s`".
pub open spec fn no_data_in(s: StoreView) -> spec_fn(u64) -> bool {
    |id: u64| !s.has_data(id)
}

/// The test "is not the id of a transform of `s`".
pub open spec fn no_transform_in(s: StoreView) -> spec_fn(u64) -> bool {
    |id: u64| !s.has_transform(id)
}

/// The ids of an optional list: none where the list is missing.
pub open spec fn ids_or_none(ids: Option<&[u64]>) -> Seq<u64> {
    match ids {
        Some(s) => s@,
        None => Seq::empty(),
    }
}

/// What `Database::load` makes of what was read: the ledger that the file
/// holds, or the report that there is no file.
pub open spec fn spec_load(stored: Option<StoreView>) -> Result<StoreView, DbError> {
    match stored {
        Some(s) => Ok(s),
        None => Err(DbError::LedgerMissing),
    }
}

/// What a ledger is, apart from how it is held in memory.
pub struct StoreView {
    pub db_path: Seq<char>,
    pub data: Seq<DataView>,
    pub transforms: Seq<TransformView>,
    pub connections: Seq<ConnectionView>,
    pub curr_id: u64,
}

impl StoreView {
    /// The ledger at `db_path` that holds nothing yet.
    pub open spec fn empty(db_path: Seq<char>) -> StoreView {
        StoreView {
            db_path,
            data: Seq::empty(),
            transforms: Seq::empty(),
            connections: Seq::empty(),
            curr_id: 0,
        }
    }

    /// Whether a dataset is stored under `id`.
    pub open spec fn has_data(self, id: u64) -> bool {
        first_where(self.data, data_with_id(id)) < self.data.len()
    }

    /// Whether a transform is stored under `id`.
    pub open spec fn has_transform(self, id: u64) -> bool {
        first_where(self.transforms, transform_with_id(id)) < self.transforms.len()
    }

    /// The first dataset stored under `id`.
    pub open spec fn data_of(self, id: u64) -> DataView
        recommends
            self.has_data(id),
    {
        self.data[first_where(self.data, data_with_id(id)) as int]
    }

    /// The first transform stored under `id`.
    pub open spec fn transform_of(self, id: u64) -> TransformView
        recommends
            self.has_transform(id),
    {
        self.transforms[first_where(self.transforms, transform_with_id(id)) as int]
    }

    /// The ledger after `d` was handed in, and the id it was stored under.
    /// A dataset without paths is refused, and so is one that holds the
    /// same paths as a stored one; the ledger then stays as it is.
    pub open spec fn try_add_data(self, d: DataView) -> (StoreView, Result<u64, DbError>) {
        let twin = first_where(self.data, data_like(d.paths)) as int;
        if d.paths.len() == 0 {
            (self, Err(DbError::NoDataPaths))
        } else if twin < self.data.len() {
            (self, Err(DbError::DataExists(self.data[twin].id)))
        } else {
            (
                StoreView {
                    data: self.data.push(DataView { id: self.curr_id, ..d }),
                    curr_id: (self.curr_id + 1) as u64,
                    ..self
                },
                Ok(self.curr_id),
            )
        }
    }

    /// The ledger after `t` was handed in, and the id it was stored under.
    /// A transform without scripts is refused, and so is one that runs the
    /// same scripts as a stored one; the ledger then stays as it is.
    pub open spec fn try_add_transform(self, t: TransformView) -> (StoreView, Result<u64, DbError>) {
        let twin = first_where(self.transforms, transform_like(t)) as int;
        if t.script_paths.len() == 0 {
            (self, Err(DbError::NoScriptPaths))
        } else if twin < self.transforms.len() {
            (self, Err(DbError::TransformExists(self.transforms[twin].id)))
        } else {
            (
                StoreView {
                    transforms: self.transforms.push(TransformView { id: self.curr_id, ..t }),
                    curr_id: (self.curr_id + 1) as u64,
                    ..self
                },
                Ok(self.curr_id),
            )
        }
    }

    /// The ledger after a dataset with the paths `resolved` was added at the
    /// time `now`, and the id it was stored under. Each path comes in its
    /// absolute form, or as `None` where it does not exist; the first that
    /// does not exist is reported. Then `try_add_data` decides.
    pub open spec fn add_data(
        self,
        resolved: Seq<Option<Seq<char>>>,
        md: Option<Seq<char>>,
        now: Seq<char>,
    ) -> (StoreView, Result<u64, DbError>) {
        let gap = first_where(resolved, is_missing());
        if gap < resolved.len() {
            (self, Err(DbError::PathMissing(gap as usize)))
        } else {
            self.try_add_data(
                DataView {
                    id: self.curr_id,
                    md: stamped(spec_parse_md(md), now),
                    paths: Seq::new(resolved.len(), |i: int| resolved[i]->0),
                },
            )
        }
    }

    /// The ledger after a transform of the scripts `scripts` was added at
    /// the time `now`, and the id it was stored under. `args` and `hashes`
    /// hold one value for each script, as `parse_kv_opt_string` reads them;
    /// where they do not, the transform is refused. The first script that
    /// cannot be run is reported. Each script is pinned as `resolved_hash`
    /// says. Then `try_add_transform` decides.
    pub open spec fn add_transform(
        self,
        scripts: Seq<ScriptProbe>,
        args: Option<Seq<char>>,
        hashes: Option<Seq<char>>,
        md: Option<Seq<char>>,
        now: Seq<char>,
    ) -> (StoreView, Result<u64, DbError>) {
        let n = scripts.len();
        let script_args = spec_parse_kv_opt_string(args, Some(n as usize));
        let hints = spec_parse_kv_opt_string(hashes, Some(n as usize));
        let bad = first_where(scripts, cannot_run());
        if script_args.len() != n || hints.len() != n {
            (self, Err(DbError::LengthMismatch))
        } else if bad < n {
            if !scripts[bad as int].exists {
                (self, Err(DbError::ScriptMissing(bad as usize)))
            } else {
                (self, Err(DbError::ScriptNotAFile(bad as usize)))
            }
        } else {
            self.try_add_transform(
                TransformView {
                    id: self.curr_id,
                    md: stamped(spec_parse_md(md), now),
                    script_paths: Seq::new(n, |i: int| scripts[i].absolute@),
                    script_args,
                    script_git_hashes: Seq::new(
                        n,
                        |i: int| resolved_hash(hints[i], scripts[i].repository),
                    ),
                },
            )
        }
    }

    /// The ledger after a connection was added at the time `now`, and the id
    /// it was stored under. A connection without any id is refused. Every id
    /// must be stored: the input datasets are looked up first, then the
    /// output datasets, the input transforms and the output transforms, and
    /// the first id that is not stored is reported. A connection that
    /// records the same edge as a stored one is refused.
    pub open spec fn connect(
        self,
        action: Action,
        in_data: Seq<u64>,
        out_data: Seq<u64>,
        in_transform: Seq<u64>,
        out_transform: Seq<u64>,
        md: Option<Seq<char>>,
        now: Seq<char>,
    ) -> (StoreView, Result<u64, DbError>) {
        let a = first_where(in_data, no_data_in(self)) as int;
        let b = first_where(out_data, no_data_in(self)) as int;
        let c = first_where(in_transform, no_transform_in(self)) as int;
        let d = first_where(out_transform, no_transform_in(self)) as int;
        let edge = ConnectionView {
            id: self.curr_id,
            md: stamped(spec_parse_md(md), now),
            action,
            in_data_ids: in_data,
            out_data_ids: out_data,
            in_transform_ids: in_transform,
            out_transform_ids: out_transform,
        };
        let twin = first_where(self.connections, connection_like(edge)) as int;
        if in_data.len() + out_data.len() + in_transform.len() + out_transform.len() == 0 {
            (self, Err(DbError::NoIds))
        } else if a < in_data.len() {
            (self, Err(DbError::InputDataMissing(in_data[a])))
        } else if b < out_data.len() {
            (self, Err(DbError::OutputDataMissing(out_data[b])))
        } else if c < in_transform.len() {
            (self, Err(DbError::InputTransformMissing(in_transform[c])))
        } else if d < out_transform.len() {
            (self, Err(DbError::OutputTransformMissing(out_transform[d])))
        } else if twin < self.connections.len() {
            (self, Err(DbError::ConnectionExists(self.connections[twin].id)))
        } else {
            (
                StoreView {
                    connections: self.connections.push(edge),
                    curr_id: (self.curr_id + 1) as u64,
                    ..self
                },
                Ok(self.curr_id),
            )
        }
    }

    /// The transform that runs the scripts of the transforms `ids` one
    /// after another. Its metadata is theirs laid over one another in that
    /// order, so that a later transform's value of a key stays.
    pub open spec fn chained(self, ids: Seq<u64>) -> TransformView
        decreases ids.len(),
    {
        if ids.len() == 0 {
            TransformView {
                id: self.curr_id,
                md: Map::empty(),
                script_paths: Seq::empty(),
                script_args: Seq::empty(),
                script_git_hashes: Seq::empty(),
            }
        } else {
            let head = self.chained(ids.drop_last());
            let last = self.transform_of(ids.last());
            TransformView {
                id: self.curr_id,
                md: head.md.union_prefer_right(last.md),
                script_paths: head.script_paths + last.script_paths,
                script_args: head.script_args + last.script_args,
                script_git_hashes: head.script_git_hashes + last.script_git_hashes,
            }
        }
    }

    /// The dataset that holds the paths of the datasets `ids` one after
    /// another. Its metadata is theirs laid over one another in that order,
    /// so that a later dataset's value of a key stays.
    pub open spec fn linked(self, ids: Seq<u64>) -> DataView
        decreases ids.len(),
    {
        if ids.len() == 0 {
            DataView { id: self.curr_id, md: Map::empty(), paths: Seq::empty() }
        } else {
            let head = self.linked(ids.drop_last());
            let last = self.data_of(ids.last());
            DataView {
                id: self.curr_id,
                md: head.md.union_prefer_right(last.md),
                paths: head.paths + last.paths,
            }
        }
    }

    /// The ledger after the transforms `ids` were chained at the time
    /// `now`, and the ids of the new transform and of the connection that
    /// records the chaining. The first id under which no transform is stored
    /// is reported. The new transform is `chained(ids)` with the given
    /// metadata laid over it; `try_add_transform` decides whether it is
    /// stored. Where the connection is then refused, the new transform stays.
    pub open spec fn chain(self, ids: Seq<u64>, md: Option<Seq<char>>, now: Seq<char>) -> (
        StoreView,
        Result<(u64, u64), DbError>,
    ) {
        let gap = first_where(ids, no_transform_in(self)) as int;
        let whole = self.chained(ids);
        let given = stamped(spec_parse_md(md), now);
        let added = self.try_add_transform(
            TransformView { md: whole.md.union_prefer_right(given), ..whole },
        );
        if gap < ids.len() {
            (self, Err(DbError::TransformMissing(ids[gap])))
        } else {
            match added.1 {
                Err(e) => (self, Err(e)),
                Ok(new_id) => {
                    let recorded = added.0.connect(
                        Action::Chain,
                        Seq::empty(),
                        Seq::empty(),
                        ids,
                        seq![new_id],
                        md,
                        now,
                    );
                    match recorded.1 {
                        Err(e) => (added.0, Err(e)),
                        Ok(edge_id) => (recorded.0, Ok((new_id, edge_id))),
                    }
                },
            }
        }
    }

    /// The ledger after the datasets `ids` were linked at the time `now`,
    /// and the ids of the new dataset and of the connection that records the
    /// linking. The first id under which no dataset is stored is reported.
    /// The new dataset is `linked(ids)` with the given metadata laid over
    /// it; `try_add_data` decides whether it is stored. Where the connection
    /// is then refused, the new dataset stays.
    pub open spec fn link(self, ids: Seq<u64>, md: Option<Seq<char>>, now: Seq<char>) -> (
        StoreView,
        Result<(u64, u64), DbError>,
    ) {
        let gap = first_where(ids, no_data_in(self)) as int;
        let whole = self.linked(ids);
        let given = stamped(spec_parse_md(md), now);
        let added = self.try_add_data(DataView { md: whole.md.union_prefer_right(given), ..whole });
        if gap < ids.len() {
            (self, Err(DbError::DataMissing(ids[gap])))
        } else {
            match added.1 {
                Err(e) => (self, Err(e)),
                Ok(new_id) => {
                    let recorded = added.0.connect(
                        Action::Link,
                        ids,
                        seq![new_id],
                        Seq::empty(),
                        Seq::empty(),
                        md,
                        now,
                    );
                    match recorded.1 {
                        Err(e) => (added.0, Err(e)),
                        Ok(edge_id) => (recorded.0, Ok((new_id, edge_id))),
                    }
                },
            }
        }
    }

    /// The ledger after the transform `transform_id` was applied to the
    /// datasets `data_ids` at the time `now` and gave the paths `paths`, and
    /// the ids of the new dataset and of the connection that records the
    /// application. A transform that is not stored is reported, then the
    /// first dataset that is not. `try_add_data` decides whether the new
    /// dataset is stored. Where the connection is then refused, the new
    /// dataset stays.
    pub open spec fn apply(
        self,
        transform_id: u64,
        data_ids: Seq<u64>,
        md: Option<Seq<char>>,
        now: Seq<char>,
        paths: Seq<Seq<char>>,
    ) -> (StoreView, Result<(u64, u64), DbError>) {
        let gap = first_where(data_ids, no_data_in(self)) as int;
        let added = self.try_add_data(
            DataView { id: self.curr_id, md: stamped(spec_parse_md(md), now), paths },
        );
        if !self.has_transform(transform_id) {
            (self, Err(DbError::TransformMissing(transform_id)))
        } else if gap < data_ids.len() {
            (self, Err(DbError::DataMissing(data_ids[gap])))
        } else {
            match added.1 {
                Err(e) => (self, Err(e)),
                Ok(new_id) => {
                    let recorded = added.0.connect(
                        Action::Apply,
                        data_ids,
                        seq![new_id],
                        seq![transform_id],
                        Seq::empty(),
                        md,
                        now,
                    );
                    match recorded.1 {
                        Err(e) => (added.0, Err(e)),
                        Ok(edge_id) => (recorded.0, Ok((new_id, edge_id))),
                    }
                },
            }
        }
    }

    /// The run that applies the transform `transform_id` to the datasets
    /// `data_ids`, at its beginning, and what is to be done first. A
    /// transform that is not stored is reported, then the first dataset that
    /// is not. The first script is given the paths of the first dataset, and
    /// the run makes the dataset that will get the next id.
    pub open spec fn prepare_apply(self, transform_id: u64, data_ids: Seq<u64>) -> Result<
        (ExecutionView, RequestView),
        DbError,
    > {
        let gap = first_where(data_ids, no_data_in(self)) as int;
        let transform = self.transform_of(transform_id);
        if !self.has_transform(transform_id) {
            Err(DbError::TransformMissing(transform_id))
        } else if gap < data_ids.len() {
            Err(DbError::DataMissing(data_ids[gap]))
        } else {
            Ok(
                ExecutionView::start(
                    transform.script_paths,
                    transform.script_args,
                    transform.script_git_hashes,
                    if data_ids.len() > 0 {
                        self.data_of(data_ids[0]).paths
                    } else {
                        Seq::empty()
                    },
                    self.curr_id,
                ),
            )
        }
    }
}

} // verus!
