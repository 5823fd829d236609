//! The ledger: datasets, transforms and the connections between them.

pub mod entry;
pub mod invariants;
pub mod model;

use crate::clock::{spec_timestamp_text, timestamp_text, utc_now, Moment};
use crate::error::DbError;
use crate::execution::{Execution, Request};
use crate::metadata::{entries_map, lemma_entries_take, Metadata};
use crate::text::{
    copy_optional_texts, copy_texts, find_char, first_where, lemma_first_where,
    lemma_first_where_map, lemma_first_where_unique, split, split_on,
};
use crate::utils::{parse_kv_opt_string, spec_parse_kv_opt_string, verify_file_path};
use crate::version_control::{resolve_hash, resolved_hash, ScriptProbe};
use entry::action::Action;
use entry::connection::Connection;
use entry::data::Data;
use entry::transform::Transform;
use entry::{entry_in, equal_to, has_id, id_in};
use model::{
    cannot_run, connection_like, connection_views, data_like, data_views, data_with_id,
    ids_or_none, is_missing, md_key, md_pair, md_value, no_data_in, no_transform_in,
    optional_view, spec_load, spec_parse_md, stamped, transform_like, transform_views,
    transform_with_id, view_of_connection, view_of_data, view_of_transform, StoreView,
};
use vstd::prelude::*;
use vstd::slice::slice_to_vec;

verus! {

/// What a ledger file holds.
#[derive(Debug)]
pub struct Stored {
    pub db_path: String,
    pub data_vec: Vec<Data>,
    pub transform_vec: Vec<Transform>,
    pub connection_vec: Vec<Connection>,
    pub curr_id: u64,
}

impl View for Stored {
    type V = StoreView;

    open spec fn view(&self) -> StoreView {
        StoreView {
            db_path: self.db_path@,
            data: data_views(self.data_vec@),
            transforms: transform_views(self.transform_vec@),
            connections: connection_views(self.connection_vec@),
            curr_id: self.curr_id,
        }
    }
}

/// A ledger: its datasets, transforms and connections, each kind in the
/// order of insertion, and the id that the next entry will get.
pub struct Database {
    db_path: String,
    data_vec: Vec<Data>,
    transform_vec: Vec<Transform>,
    connection_vec: Vec<Connection>,
    curr_id: u64,
}

impl View for Database {
    type V = StoreView;

    closed spec fn view(&self) -> StoreView {
        StoreView {
            db_path: self.db_path@,
            data: data_views(self.data_vec@),
            transforms: transform_views(self.transform_vec@),
            connections: connection_views(self.connection_vec@),
            curr_id: self.curr_id,
        }
    }
}

impl Database {
    /// Makes the empty ledger that will be kept at `db_path`. `exists` says
    /// whether a ledger already stands there; one that does is not replaced.
    pub fn new(db_path: &str, exists: bool) -> (r: Result<Database, DbError>)
        ensures
            match r {
                Ok(db) => !exists && db@ == StoreView::empty(db_path@),
                Err(e) => exists && e == DbError::LedgerExists,
            },
    {
        if exists {
            return Err(DbError::LedgerExists);
        }
        let db = Database {
            db_path: db_path.to_owned(),
            data_vec: Vec::new(),
            transform_vec: Vec::new(),
            connection_vec: Vec::new(),
            curr_id: 0,
        };
        assert(db@.data =~= Seq::empty());
        assert(db@.transforms =~= Seq::empty());
        assert(db@.connections =~= Seq::empty());
        Ok(db)
    }

    /// Makes the empty ledger that will be kept at `db_path`, and gives
    /// what is to be written to its file. `exists` says whether a ledger
    /// already stands there; one that does is not replaced.
    pub fn init(db_path: &str, exists: bool) -> (r: Result<Stored, DbError>)
        ensures
            match r {
                Ok(stored) => !exists && stored@ == StoreView::empty(db_path@),
                Err(e) => exists && e == DbError::LedgerExists,
            },
    {
        match Self::new(db_path, exists) {
            Ok(db) => Ok(db.write()),
            Err(e) => Err(e),
        }
    }

    /// Takes up the ledger that was read from its file; `None` says that
    /// there was no file.
    pub fn load(stored: Option<Stored>) -> (r: Result<Database, DbError>)
        ensures
            match spec_load(
                match stored {
                    Some(s) => Some(s@),
                    None => None,
                },
            ) {
                Ok(s) => r matches Ok(db) && db@ == s,
                Err(e) => r matches Err(f) && f == e,
            },
    {
        match stored {
            Some(s) => Ok(
                Database {
                    db_path: s.db_path,
                    data_vec: s.data_vec,
                    transform_vec: s.transform_vec,
                    connection_vec: s.connection_vec,
                    curr_id: s.curr_id,
                },
            ),
            None => Err(DbError::LedgerMissing),
        }
    }

    /// What is to be written to the ledger's file: the whole ledger.
    pub fn write(&self) -> (r: Stored)
        ensures
            r@ == self@,
    {
        let mut data_vec: Vec<Data> = Vec::new();
        let mut i: usize = 0;
        while i < self.data_vec.len()
            invariant
                i <= self.data_vec.len(),
                data_views(data_vec@) == data_views(self.data_vec@).take(i as int),
            decreases self.data_vec.len() - i,
        {
            let ghost before = data_views(data_vec@);
            let copy = self.data_vec[i].clone();
            data_vec.push(copy);
            assert(data_views(data_vec@) == before.push(copy@));
            i += 1;
        }
        assert(data_views(self.data_vec@).take(i as int) == data_views(self.data_vec@));
        let mut transform_vec: Vec<Transform> = Vec::new();
        let mut i: usize = 0;
        while i < self.transform_vec.len()
            invariant
                i <= self.transform_vec.len(),
                transform_views(transform_vec@) == transform_views(self.transform_vec@).take(
                    i as int,
                ),
            decreases self.transform_vec.len() - i,
        {
            let ghost before = transform_views(transform_vec@);
            let copy = self.transform_vec[i].clone();
            transform_vec.push(copy);
            assert(transform_views(transform_vec@) == before.push(copy@));
            i += 1;
        }
        assert(transform_views(self.transform_vec@).take(i as int) == transform_views(
            self.transform_vec@,
        ));
        let mut connection_vec: Vec<Connection> = Vec::new();
        let mut i: usize = 0;
        while i < self.connection_vec.len()
            invariant
                i <= self.connection_vec.len(),
                connection_views(connection_vec@) == connection_views(self.connection_vec@).take(
                    i as int,
                ),
            decreases self.connection_vec.len() - i,
        {
            let ghost before = connection_views(connection_vec@);
            let copy = self.connection_vec[i].clone();
            connection_vec.push(copy);
            assert(connection_views(connection_vec@) == before.push(copy@));
            i += 1;
        }
        assert(connection_views(self.connection_vec@).take(i as int) == connection_views(
            self.connection_vec@,
        ));
        Stored {
            db_path: self.db_path.clone(),
            data_vec,
            transform_vec,
            connection_vec,
            curr_id: self.curr_id,
        }
    }

    /// Where the ledger is kept.
    pub fn get_db_path(&self) -> (r: String)
        ensures
            r@ == self@.db_path,
    {
        self.db_path.clone()
    }

    /// The datasets, in the order of insertion.
    pub fn data(&self) -> (r: &Vec<Data>)
        ensures
            data_views(r@) == self@.data,
    {
        &self.data_vec
    }

    /// The transforms, in the order of insertion.
    pub fn transforms(&self) -> (r: &Vec<Transform>)
        ensures
            transform_views(r@) == self@.transforms,
    {
        &self.transform_vec
    }

    /// The connections, in the order of insertion.
    pub fn connections(&self) -> (r: &Vec<Connection>)
        ensures
            connection_views(r@) == self@.connections,
    {
        &self.connection_vec
    }

    /// The id that the next entry will get.
    pub fn curr_id(&self) -> (r: u64)
        ensures
            r == self@.curr_id,
    {
        self.curr_id
    }

    /// Whether a dataset is stored under `id`.
    pub fn has_data(&self, id: u64) -> (r: bool)
        ensures
            r == self@.has_data(id),
    {
        proof {
            lemma_first_where_map(
                self.data_vec@,
                has_id::<Data>(id),
                view_of_data(),
                data_with_id(id),
            );
        }
        id_in(id, self.data_vec.as_slice())
    }

    /// Whether a transform is stored under `id`.
    pub fn has_transform(&self, id: u64) -> (r: bool)
        ensures
            r == self@.has_transform(id),
    {
        proof {
            lemma_first_where_map(
                self.transform_vec@,
                has_id::<Transform>(id),
                view_of_transform(),
                transform_with_id(id),
            );
        }
        id_in(id, self.transform_vec.as_slice())
    }

    /// The first dataset stored under `id`.
    pub fn find_data(&self, id: u64) -> (r: Option<&Data>)
        ensures
            r is Some == self@.has_data(id),
            r matches Some(d) ==> d@ == self@.data_of(id),
    {
        let mut i: usize = 0;
        while i < self.data_vec.len()
            invariant
                i <= self.data_vec.len(),
                forall|j: int| 0 <= j < i ==> !has_id::<Data>(id)(#[trigger] self.data_vec@[j]),
            decreases self.data_vec.len() - i,
        {
            if self.data_vec[i].id == id {
                proof {
                    lemma_first_where_unique(self.data_vec@, has_id::<Data>(id), i as int);
                    lemma_first_where_map(
                        self.data_vec@,
                        has_id::<Data>(id),
                        view_of_data(),
                        data_with_id(id),
                    );
                }
                return Some(&self.data_vec[i]);
            }
            i += 1;
        }
        proof {
            lemma_first_where_unique(self.data_vec@, has_id::<Data>(id), i as int);
            lemma_first_where_map(
                self.data_vec@,
                has_id::<Data>(id),
                view_of_data(),
                data_with_id(id),
            );
        }
        None
    }

    /// The first transform stored under `id`.
    pub fn find_transform(&self, id: u64) -> (r: Option<&Transform>)
        ensures
            r is Some == self@.has_transform(id),
            r matches Some(t) ==> t@ == self@.transform_of(id),
    {
        let mut i: usize = 0;
        while i < self.transform_vec.len()
            invariant
                i <= self.transform_vec.len(),
                forall|j: int|
                    0 <= j < i ==> !has_id::<Transform>(id)(#[trigger] self.transform_vec@[j]),
            decreases self.transform_vec.len() - i,
        {
            if self.transform_vec[i].id == id {
                proof {
                    lemma_first_where_unique(
                        self.transform_vec@,
                        has_id::<Transform>(id),
                        i as int,
                    );
                    lemma_first_where_map(
                        self.transform_vec@,
                        has_id::<Transform>(id),
                        view_of_transform(),
                        transform_with_id(id),
                    );
                }
                return Some(&self.transform_vec[i]);
            }
            i += 1;
        }
        proof {
            lemma_first_where_unique(self.transform_vec@, has_id::<Transform>(id), i as int);
            lemma_first_where_map(
                self.transform_vec@,
                has_id::<Transform>(id),
                view_of_transform(),
                transform_with_id(id),
            );
        }
        None
    }

    /// The first of `ids` under which no dataset is stored.
    fn first_unknown_data(&self, ids: &[u64]) -> (r: Option<u64>)
        ensures
            r == (if first_where(ids@, no_data_in(self@)) < ids@.len() {
                Some(ids@[first_where(ids@, no_data_in(self@)) as int])
            } else {
                None
            }),
    {
        let mut i: usize = 0;
        while i < ids.len()
            invariant
                i <= ids@.len(),
                forall|j: int| 0 <= j < i ==> !no_data_in(self@)(#[trigger] ids@[j]),
            decreases ids@.len() - i,
        {
            if !self.has_data(ids[i]) {
                proof {
                    lemma_first_where_unique(ids@, no_data_in(self@), i as int);
                }
                return Some(ids[i]);
            }
            i += 1;
        }
        proof {
            lemma_first_where_unique(ids@, no_data_in(self@), i as int);
        }
        None
    }

    /// The first of `ids` under which no transform is stored.
    fn first_unknown_transform(&self, ids: &[u64]) -> (r: Option<u64>)
        ensures
            r == (if first_where(ids@, no_transform_in(self@)) < ids@.len() {
                Some(ids@[first_where(ids@, no_transform_in(self@)) as int])
            } else {
                None
            }),
    {
        let mut i: usize = 0;
        while i < ids.len()
            invariant
                i <= ids@.len(),
                forall|j: int| 0 <= j < i ==> !no_transform_in(self@)(#[trigger] ids@[j]),
            decreases ids@.len() - i,
        {
            if !self.has_transform(ids[i]) {
                proof {
                    lemma_first_where_unique(ids@, no_transform_in(self@), i as int);
                }
                return Some(ids[i]);
            }
            i += 1;
        }
        proof {
            lemma_first_where_unique(ids@, no_transform_in(self@), i as int);
        }
        None
    }

    /// Reads a metadata text.
    pub fn parse_md(meta_data_str: Option<&str>) -> (md: Metadata)
        ensures
            md@ == spec_parse_md(optional_view(meta_data_str)),
    {
        let mut md = Metadata::new();
        match meta_data_str {
            None => {},
            Some(text) => {
                let pieces = split_on(text, ';');
                let ghost pairs = pieces.deep_view().map_values(|piece: Seq<char>| md_pair(piece));
                let mut i: usize = 0;
                assert(pairs.take(0) =~= Seq::empty());
                while i < pieces.len()
                    invariant
                        i <= pieces.len(),
                        pieces.deep_view() == split(text@, ';'),
                        pairs == pieces.deep_view().map_values(|piece: Seq<char>| md_pair(piece)),
                        md@ == entries_map(pairs.take(i as int)),
                    decreases pieces.len() - i,
                {
                    let piece = pieces[i].as_str();
                    let (at, len) = find_char(piece, '=');
                    let key = piece.substring_char(0, at).to_owned();
                    let value = if at < len {
                        piece.substring_char(at + 1, len).to_owned()
                    } else {
                        String::new()
                    };
                    proof {
                        assert(piece@ == pieces.deep_view()[i as int]);
                        assert(key@ == md_key(piece@));
                        assert(value@ == md_value(piece@));
                        lemma_entries_take(pairs, i as int);
                    }
                    md.insert(key, value);
                    i += 1;
                }
                assert(pairs.take(i as int) == pairs);
            },
        }
        md
    }

    /// Adds the time of creation `now` to `md`, unless `md` names one.
    fn stamp(md: &mut Metadata, now: &str)
        ensures
            final(md)@ == stamped(old(md)@, now@),
    {
        if !md.contains_key("time") {
            md.insert("time".to_owned(), now.to_owned());
        }
    }

    /// The ids of an optional list: none where the list is missing.
    fn ids_of(ids: Option<&[u64]>) -> (r: Vec<u64>)
        ensures
            r@ == ids_or_none(ids),
    {
        match ids {
            Some(s) => slice_to_vec(s),
            None => Vec::new(),
        }
    }

    /// Stores `data` under the next id, unless it has no paths or holds the
    /// same paths as a stored dataset.
    pub(crate) fn try_add_data(&mut self, data: Data) -> (r: Result<u64, DbError>)
        requires
            old(self)@.curr_id < u64::MAX,
        ensures
            (final(self)@, r) == old(self)@.try_add_data(data@),
    {
        if data.paths.len() == 0 {
            return Err(DbError::NoDataPaths);
        }
        proof {
            lemma_first_where_map(
                self.data_vec@,
                equal_to(data),
                view_of_data(),
                data_like(data@.paths),
            );
        }
        let (exists, id) = entry_in(&data, self.data_vec.as_slice());
        if exists {
            return Err(DbError::DataExists(id));
        }
        let mut data = data;
        data.id = self.curr_id;
        let ghost before = self@.data;
        self.data_vec.push(data);
        assert(self@.data == before.push(data@));
        self.curr_id += 1;
        Ok(self.curr_id - 1)
    }

    /// Stores `transform` under the next id, unless it has no scripts or
    /// runs the same scripts as a stored transform.
    pub(crate) fn try_add_transform(&mut self, transform: Transform) -> (r: Result<u64, DbError>)
        requires
            old(self)@.curr_id < u64::MAX,
        ensures
            (final(self)@, r) == old(self)@.try_add_transform(transform@),
    {
        if transform.script_paths.len() == 0 {
            return Err(DbError::NoScriptPaths);
        }
        proof {
            lemma_first_where_map(
                self.transform_vec@,
                equal_to(transform),
                view_of_transform(),
                transform_like(transform@),
            );
        }
        let (exists, id) = entry_in(&transform, self.transform_vec.as_slice());
        if exists {
            return Err(DbError::TransformExists(id));
        }
        let mut transform = transform;
        transform.id = self.curr_id;
        let ghost before = self@.transforms;
        self.transform_vec.push(transform);
        assert(self@.transforms == before.push(transform@));
        self.curr_id += 1;
        Ok(self.curr_id - 1)
    }

    /// Adds a dataset at the time `now`. `resolved` holds, for each path
    /// that was given, its absolute form, or `None` where it does not exist.
    pub fn add_data_at(
        &mut self,
        resolved: &[Option<String>],
        meta_data_str: Option<&str>,
        now: &str,
    ) -> (r: Result<u64, DbError>)
        requires
            old(self)@.curr_id < u64::MAX,
        ensures
            (final(self)@, r) == old(self)@.add_data(
                resolved.deep_view(),
                optional_view(meta_data_str),
                now@,
            ),
    {
        let mut used_paths: Vec<String> = Vec::new();
        let mut i: usize = 0;
        while i < resolved.len()
            invariant
                i <= resolved@.len(),
                forall|j: int| 0 <= j < i ==> !is_missing()(#[trigger] resolved.deep_view()[j]),
                used_paths.deep_view() == Seq::new(i as nat, |k: int| resolved.deep_view()[k]->0),
            decreases resolved@.len() - i,
        {
            match &resolved[i] {
                Some(path) => {
                    let ghost before = used_paths.deep_view();
                    used_paths.push(path.clone());
                    assert(used_paths.deep_view() == before.push(path@));
                },
                None => {
                    proof {
                        lemma_first_where_unique(resolved.deep_view(), is_missing(), i as int);
                    }
                    return Err(DbError::PathMissing(i));
                },
            }
            i += 1;
        }
        proof {
            lemma_first_where_unique(resolved.deep_view(), is_missing(), i as int);
        }
        let mut md = Self::parse_md(meta_data_str);
        Self::stamp(&mut md, now);
        let data = Data { id: self.curr_id, md, paths: used_paths };
        self.try_add_data(data)
    }

    /// Adds a dataset at the present time. `resolved` holds, for each path
    /// that was given, its absolute form, or `None` where it does not exist.
    pub fn add_data(&mut self, resolved: &[Option<String>], meta_data_str: Option<&str>) -> (r:
        Result<u64, DbError>)
        requires
            old(self)@.curr_id < u64::MAX,
        ensures
            exists|now: Moment|
                now.in_range() && (final(self)@, r) == #[trigger] old(self)@.add_data(
                    resolved.deep_view(),
                    optional_view(meta_data_str),
                    spec_timestamp_text(now),
                ),
    {
        let now = timestamp_text(&utc_now());
        self.add_data_at(resolved, meta_data_str, now.as_str())
    }

    /// Adds a transform at the time `now`. `scripts` holds, for each script
    /// path that was given, what was found out about it.
    #[verifier::rlimit(50)]
    pub fn add_transform_at(
        &mut self,
        scripts: &[ScriptProbe],
        script_args_str: Option<&str>,
        script_git_hashes_str: Option<&str>,
        meta_data_str: Option<&str>,
        now: &str,
    ) -> (r: Result<u64, DbError>)
        requires
            old(self)@.curr_id < u64::MAX,
        ensures
            (final(self)@, r) == old(self)@.add_transform(
                scripts@,
                optional_view(script_args_str),
                optional_view(script_git_hashes_str),
                optional_view(meta_data_str),
                now@,
            ),
    {
        let n = scripts.len();
        let script_args = parse_kv_opt_string(script_args_str, Some(n));
        let hints = parse_kv_opt_string(script_git_hashes_str, Some(n));
        assert(script_args.deep_view().len() == script_args.len());
        assert(hints.deep_view().len() == hints.len());
        if script_args.len() != n || hints.len() != n {
            return Err(DbError::LengthMismatch);
        }
        let mut used_paths: Vec<String> = Vec::new();
        let mut used_hashes: Vec<Option<String>> = Vec::new();
        let mut i: usize = 0;
        while i < n
            invariant
                n == scripts@.len(),
                i <= n,
                script_args.deep_view() == spec_parse_kv_opt_string(
                    optional_view(script_args_str),
                    Some(n),
                ),
                hints.deep_view() == spec_parse_kv_opt_string(
                    optional_view(script_git_hashes_str),
                    Some(n),
                ),
                script_args.deep_view().len() == n,
                hints.deep_view().len() == n,
                hints.len() == n,
                *self == *old(self),
                forall|j: int| 0 <= j < i ==> !cannot_run()(#[trigger] scripts@[j]),
                used_paths.deep_view() == Seq::new(i as nat, |k: int| scripts@[k].absolute@),
                used_hashes.deep_view() == Seq::new(
                    i as nat,
                    |k: int| resolved_hash(hints.deep_view()[k], scripts@[k].repository),
                ),
            decreases n - i,
        {
            match verify_file_path(scripts[i].exists, scripts[i].is_file, i) {
                Ok(()) => {},
                Err(e) => {
                    proof {
                        lemma_first_where_unique(scripts@, cannot_run(), i as int);
                    }
                    return Err(e);
                },
            }
            let ghost paths_before = used_paths.deep_view();
            let ghost hashes_before = used_hashes.deep_view();
            used_paths.push(scripts[i].absolute.clone());
            let hash = resolve_hash(&hints[i], &scripts[i].repository);
            used_hashes.push(hash);
            assert(used_paths.deep_view() == paths_before.push(scripts@[i as int].absolute@));
            assert(used_hashes.deep_view() == hashes_before.push(
                resolved_hash(hints.deep_view()[i as int], scripts@[i as int].repository),
            ));
            i += 1;
        }
        proof {
            lemma_first_where_unique(scripts@, cannot_run(), i as int);
        }
        let mut md = Self::parse_md(meta_data_str);
        Self::stamp(&mut md, now);
        let transform = Transform {
            id: self.curr_id,
            md,
            script_paths: used_paths,
            script_args,
            script_git_hashes: used_hashes,
        };
        self.try_add_transform(transform)
    }

    /// Adds a transform at the present time. `scripts` holds, for each
    /// script path that was given, what was found out about it.
    pub fn add_transform(
        &mut self,
        scripts: &[ScriptProbe],
        script_args_str: Option<&str>,
        script_git_hashes_str: Option<&str>,
        meta_data_str: Option<&str>,
    ) -> (r: Result<u64, DbError>)
        requires
            old(self)@.curr_id < u64::MAX,
        ensures
            exists|now: Moment|
                now.in_range() && (final(self)@, r) == #[trigger] old(self)@.add_transform(
                    scripts@,
                    optional_view(script_args_str),
                    optional_view(script_git_hashes_str),
                    optional_view(meta_data_str),
                    spec_timestamp_text(now),
                ),
    {
        let now = timestamp_text(&utc_now());
        self.add_transform_at(
            scripts,
            script_args_str,
            script_git_hashes_str,
            meta_data_str,
            now.as_str(),
        )
    }

    /// Adds a connection at the time `now`. A list that is not given counts
    /// as empty.
    #[verifier::rlimit(50)]
    pub fn connect_at(
        &mut self,
        action: Action,
        in_data_ids: Option<&[u64]>,
        out_data_ids: Option<&[u64]>,
        in_transform_ids: Option<&[u64]>,
        out_transform_ids: Option<&[u64]>,
        meta_data_str: Option<&str>,
        now: &str,
    ) -> (r: Result<u64, DbError>)
        requires
            old(self)@.curr_id < u64::MAX,
        ensures
            (final(self)@, r) == old(self)@.connect(
                action,
                ids_or_none(in_data_ids),
                ids_or_none(out_data_ids),
                ids_or_none(in_transform_ids),
                ids_or_none(out_transform_ids),
                optional_view(meta_data_str),
                now@,
            ),
    {
        let in_data = Self::ids_of(in_data_ids);
        let out_data = Self::ids_of(out_data_ids);
        let in_transform = Self::ids_of(in_transform_ids);
        let out_transform = Self::ids_of(out_transform_ids);
        if in_data.len() == 0 && out_data.len() == 0 && in_transform.len() == 0
            && out_transform.len() == 0 {
            return Err(DbError::NoIds);
        }
        match self.first_unknown_data(in_data.as_slice()) {
            Some(id) => {
                return Err(DbError::InputDataMissing(id));
            },
            None => {},
        }
        match self.first_unknown_data(out_data.as_slice()) {
            Some(id) => {
                return Err(DbError::OutputDataMissing(id));
            },
            None => {},
        }
        match self.first_unknown_transform(in_transform.as_slice()) {
            Some(id) => {
                return Err(DbError::InputTransformMissing(id));
            },
            None => {},
        }
        match self.first_unknown_transform(out_transform.as_slice()) {
            Some(id) => {
                return Err(DbError::OutputTransformMissing(id));
            },
            None => {},
        }
        let mut md = Self::parse_md(meta_data_str);
        Self::stamp(&mut md, now);
        let connection = Connection {
            id: self.curr_id,
            md,
            action,
            in_data_ids: in_data,
            out_data_ids: out_data,
            in_transform_ids: in_transform,
            out_transform_ids: out_transform,
        };
        proof {
            lemma_first_where_map(
                self.connection_vec@,
                equal_to(connection),
                view_of_connection(),
                connection_like(connection@),
            );
        }
        let (exists, id) = entry_in(&connection, self.connection_vec.as_slice());
        if exists {
            return Err(DbError::ConnectionExists(id));
        }
        let ghost before = self@.connections;
        self.connection_vec.push(connection);
        assert(self@.connections == before.push(connection@));
        self.curr_id += 1;
        Ok(self.curr_id - 1)
    }

    /// Adds a connection at the present time. A list that is not given
    /// counts as empty.
    pub fn connect(
        &mut self,
        action: Action,
        in_data_ids: Option<&[u64]>,
        out_data_ids: Option<&[u64]>,
        in_transform_ids: Option<&[u64]>,
        out_transform_ids: Option<&[u64]>,
        meta_data_str: Option<&str>,
    ) -> (r: Result<u64, DbError>)
        requires
            old(self)@.curr_id < u64::MAX,
        ensures
            exists|now: Moment|
                now.in_range() && (final(self)@, r) == #[trigger] old(self)@.connect(
                    action,
                    ids_or_none(in_data_ids),
                    ids_or_none(out_data_ids),
                    ids_or_none(in_transform_ids),
                    ids_or_none(out_transform_ids),
                    optional_view(meta_data_str),
                    spec_timestamp_text(now),
                ),
    {
        let now = timestamp_text(&utc_now());
        self.connect_at(
            action,
            in_data_ids,
            out_data_ids,
            in_transform_ids,
            out_transform_ids,
            meta_data_str,
            now.as_str(),
        )
    }

    /// Begins to apply the transform `transform_id` to the datasets
    /// `data_ids`: gives the run at its beginning, and what is to be done
    /// first. The ledger stays as it is until `apply` stores what the run
    /// has made.
    pub fn prepare_apply(&self, transform_id: u64, data_ids: &[u64]) -> (r: Result<
        (Execution, Request),
        DbError,
    >)
        ensures
            match self@.prepare_apply(transform_id, data_ids@) {
                Ok(begun) => r matches Ok(run) && (run.0@, run.1@) == begun,
                Err(e) => r matches Err(f) && f == e,
            },
    {
        let transform = match self.find_transform(transform_id) {
            Some(transform) => transform,
            None => {
                return Err(DbError::TransformMissing(transform_id));
            },
        };
        match self.first_unknown_data(data_ids) {
            Some(id) => {
                return Err(DbError::DataMissing(id));
            },
            None => {},
        }
        let mut data: Vec<&Data> = Vec::new();
        let mut i: usize = 0;
        while i < data_ids.len()
            invariant
                i <= data_ids@.len(),
                first_where(data_ids@, no_data_in(self@)) >= data_ids@.len(),
                data.len() == i,
                forall|k: int| 0 <= k < i ==> (#[trigger] data@[k])@ == self@.data_of(data_ids@[k]),
            decreases data_ids@.len() - i,
        {
            proof {
                lemma_first_where(data_ids@, no_data_in(self@));
                assert(!no_data_in(self@)(data_ids@[i as int]));
            }
            match self.find_data(data_ids[i]) {
                Some(found) => {
                    data.push(found);
                },
                None => {},
            }
            i += 1;
        }
        Ok(transform.apply(data.as_slice(), self.curr_id))
    }

    /// Stores the dataset `produced`, which the transform `transform_id`
    /// made of the datasets `data_ids`, at the time `now`, and records the
    /// application as a connection. Of `produced` only the paths are read.
    #[verifier::rlimit(50)]
    pub fn apply_at(
        &mut self,
        transform_id: u64,
        data_ids: &[u64],
        meta_data_str: Option<&str>,
        produced: Data,
        now: &str,
    ) -> (r: Result<(u64, u64), DbError>)
        requires
            old(self)@.curr_id < u64::MAX - 1,
        ensures
            (final(self)@, r) == old(self)@.apply(
                transform_id,
                data_ids@,
                optional_view(meta_data_str),
                now@,
                produced@.paths,
            ),
    {
        if !self.has_transform(transform_id) {
            return Err(DbError::TransformMissing(transform_id));
        }
        match self.first_unknown_data(data_ids) {
            Some(id) => {
                return Err(DbError::DataMissing(id));
            },
            None => {},
        }
        let mut md = Self::parse_md(meta_data_str);
        Self::stamp(&mut md, now);
        let mut new_data = produced;
        new_data.md = md;
        new_data.id = self.curr_id;
        let new_id = match self.try_add_data(new_data) {
            Ok(id) => id,
            Err(e) => {
                return Err(e);
            },
        };
        let out = [new_id];
        let transforms = [transform_id];
        assert(out@ =~= seq![new_id]);
        assert(transforms@ =~= seq![transform_id]);
        match self.connect_at(
            Action::Apply,
            Some(data_ids),
            Some(out.as_slice()),
            Some(transforms.as_slice()),
            None,
            meta_data_str,
            now,
        ) {
            Ok(edge_id) => Ok((new_id, edge_id)),
            Err(e) => Err(e),
        }
    }

    /// Stores the dataset `produced`, which the transform `transform_id`
    /// made of the datasets `data_ids`, at the present time, and records the
    /// application as a connection. Of `produced` only the paths are read.
    pub fn apply(
        &mut self,
        transform_id: u64,
        data_ids: &[u64],
        meta_data_str: Option<&str>,
        produced: Data,
    ) -> (r: Result<(u64, u64), DbError>)
        requires
            old(self)@.curr_id < u64::MAX - 1,
        ensures
            exists|now: Moment|
                now.in_range() && (final(self)@, r) == #[trigger] old(self)@.apply(
                    transform_id,
                    data_ids@,
                    optional_view(meta_data_str),
                    spec_timestamp_text(now),
                    produced@.paths,
                ),
    {
        let now = timestamp_text(&utc_now());
        self.apply_at(transform_id, data_ids, meta_data_str, produced, now.as_str())
    }

    /// Chains the transforms `transform_ids` into a new one at the time
    /// `now`, and records the chaining as a connection.
    #[verifier::rlimit(50)]
    pub fn chain_at(&mut self, transform_ids: &[u64], meta_data_str: Option<&str>, now: &str) -> (r:
        Result<(u64, u64), DbError>)
        requires
            old(self)@.curr_id < u64::MAX - 1,
        ensures
            (final(self)@, r) == old(self)@.chain(
                transform_ids@,
                optional_view(meta_data_str),
                now@,
            ),
    {
        match self.first_unknown_transform(transform_ids) {
            Some(id) => {
                return Err(DbError::TransformMissing(id));
            },
            None => {},
        }
        let mut md = Metadata::new();
        let mut script_paths: Vec<String> = Vec::new();
        let mut script_args: Vec<Option<String>> = Vec::new();
        let mut script_git_hashes: Vec<Option<String>> = Vec::new();
        let mut i: usize = 0;
        assert(transform_ids@.take(0) =~= Seq::empty());
        while i < transform_ids.len()
            invariant
                i <= transform_ids@.len(),
                first_where(transform_ids@, no_transform_in(self@)) >= transform_ids@.len(),
                md@ == self@.chained(transform_ids@.take(i as int)).md,
                script_paths.deep_view() == self@.chained(
                    transform_ids@.take(i as int),
                ).script_paths,
                script_args.deep_view() == self@.chained(transform_ids@.take(i as int)).script_args,
                script_git_hashes.deep_view() == self@.chained(
                    transform_ids@.take(i as int),
                ).script_git_hashes,
            decreases transform_ids@.len() - i,
        {
            proof {
                lemma_first_where(transform_ids@, no_transform_in(self@));
                assert(!no_transform_in(self@)(transform_ids@[i as int]));
                assert(transform_ids@.take(i + 1).drop_last() == transform_ids@.take(i as int));
            }
            match self.find_transform(transform_ids[i]) {
                Some(transform) => {
                    let ghost paths_before = script_paths.deep_view();
                    let ghost args_before = script_args.deep_view();
                    let ghost hashes_before = script_git_hashes.deep_view();
                    md.extend(&transform.md);
                    let mut paths = copy_texts(&transform.script_paths);
                    let mut args = copy_optional_texts(&transform.script_args);
                    let mut hashes = copy_optional_texts(&transform.script_git_hashes);
                    script_paths.append(&mut paths);
                    script_args.append(&mut args);
                    script_git_hashes.append(&mut hashes);
                    assert(script_paths.deep_view() == paths_before + transform@.script_paths);
                    assert(script_args.deep_view() == args_before + transform@.script_args);
                    assert(script_git_hashes.deep_view() == hashes_before
                        + transform@.script_git_hashes);
                },
                None => {},
            }
            i += 1;
        }
        assert(transform_ids@.take(i as int) == transform_ids@);
        let mut given = Self::parse_md(meta_data_str);
        Self::stamp(&mut given, now);
        md.extend(&given);
        let transform = Transform {
            id: self.curr_id,
            md,
            script_paths,
            script_args,
            script_git_hashes,
        };
        let new_id = match self.try_add_transform(transform) {
            Ok(id) => id,
            Err(e) => {
                return Err(e);
            },
        };
        let out = [new_id];
        assert(out@ =~= seq![new_id]);
        match self.connect_at(
            Action::Chain,
            None,
            None,
            Some(transform_ids),
            Some(out.as_slice()),
            meta_data_str,
            now,
        ) {
            Ok(edge_id) => Ok((new_id, edge_id)),
            Err(e) => Err(e),
        }
    }

    /// Chains the transforms `transform_ids` into a new one at the present
    /// time, and records the chaining as a connection.
    pub fn chain(&mut self, transform_ids: &[u64], meta_data_str: Option<&str>) -> (r: Result<
        (u64, u64),
        DbError,
    >)
        requires
            old(self)@.curr_id < u64::MAX - 1,
        ensures
            exists|now: Moment|
                now.in_range() && (final(self)@, r) == #[trigger] old(self)@.chain(
                    transform_ids@,
                    optional_view(meta_data_str),
                    spec_timestamp_text(now),
                ),
    {
        let now = timestamp_text(&utc_now());
        self.chain_at(transform_ids, meta_data_str, now.as_str())
    }

    /// Links the datasets `data_ids` into a new one at the time `now`, and
    /// records the linking as a connection.
    #[verifier::rlimit(50)]
    pub fn link_at(&mut self, data_ids: &[u64], meta_data_str: Option<&str>, now: &str) -> (r:
        Result<(u64, u64), DbError>)
        requires
            old(self)@.curr_id < u64::MAX - 1,
        ensures
            (final(self)@, r) == old(self)@.link(data_ids@, optional_view(meta_data_str), now@),
    {
        match self.first_unknown_data(data_ids) {
            Some(id) => {
                return Err(DbError::DataMissing(id));
            },
            None => {},
        }
        let mut md = Metadata::new();
        let mut paths: Vec<String> = Vec::new();
        let mut i: usize = 0;
        assert(data_ids@.take(0) =~= Seq::empty());
        while i < data_ids.len()
            invariant
                i <= data_ids@.len(),
                first_where(data_ids@, no_data_in(self@)) >= data_ids@.len(),
                md@ == self@.linked(data_ids@.take(i as int)).md,
                paths.deep_view() == self@.linked(data_ids@.take(i as int)).paths,
            decreases data_ids@.len() - i,
        {
            proof {
                lemma_first_where(data_ids@, no_data_in(self@));
                assert(!no_data_in(self@)(data_ids@[i as int]));
                assert(data_ids@.take(i + 1).drop_last() == data_ids@.take(i as int));
            }
            match self.find_data(data_ids[i]) {
                Some(data) => {
                    let ghost paths_before = paths.deep_view();
                    md.extend(&data.md);
                    let mut more = copy_texts(&data.paths);
                    paths.append(&mut more);
                    assert(paths.deep_view() == paths_before + data@.paths);
                },
                None => {},
            }
            i += 1;
        }
        assert(data_ids@.take(i as int) == data_ids@);
        let mut given = Self::parse_md(meta_data_str);
        Self::stamp(&mut given, now);
        md.extend(&given);
        let data = Data { id: self.curr_id, md, paths };
        let new_id = match self.try_add_data(data) {
            Ok(id) => id,
            Err(e) => {
                return Err(e);
            },
        };
        let out = [new_id];
        assert(out@ =~= seq![new_id]);
        match self.connect_at(
            Action::Link,
            Some(data_ids),
            Some(out.as_slice()),
            None,
            None,
            meta_data_str,
            now,
        ) {
            Ok(edge_id) => Ok((new_id, edge_id)),
            Err(e) => Err(e),
        }
    }

    /// Links the datasets `data_ids` into a new one at the present time, and
    /// records the linking as a connection.
    pub fn link(&mut self, data_ids: &[u64], meta_data_str: Option<&str>) -> (r: Result<
        (u64, u64),
        DbError,
    >)
        requires
            old(self)@.curr_id < u64::MAX - 1,
        ensures
            exists|now: Moment|
                now.in_range() && (final(self)@, r) == #[trigger] old(self)@.link(
                    data_ids@,
                    optional_view(meta_data_str),
                    spec_timestamp_text(now),
                ),
    {
        let now = timestamp_text(&utc_now());
        self.link_at(data_ids, meta_data_str, now.as_str())
    }
}

/// A ledger that is written and loaded again is the same ledger, with its
/// entries in their order, their ids, and the id that comes next.
pub proof fn lemma_write_then_load(db: Database, stored: Stored)
    requires
        stored@ == db@,
    ensures
        spec_load(Some(stored@)) == Ok::<StoreView, DbError>(db@),
{
}

} // verus!
