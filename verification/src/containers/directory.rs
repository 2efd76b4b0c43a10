use crate::containers::storage::{GameServerInfo, GameServerInfoView};
use vstd::prelude::*;

verus! {

/// The game servers that are online, in the order in which they first
/// announced themselves, with an index from their names to their identifiers.
pub struct Directory {
    entry_ids: Vec<usize>,
    entry_infos: Vec<GameServerInfo>,
    name_keys: Vec<String>,
    name_ids: Vec<usize>,
}

impl Directory {
    /// The identifiers of the entries, in order.
    pub closed spec fn ids(&self) -> Seq<usize> {
        self.entry_ids@
    }

    /// What the entries hold, in order.
    pub closed spec fn infos(&self) -> Seq<GameServerInfoView> {
        Seq::new(self.entry_infos@.len(), |i: int| self.entry_infos@[i]@)
    }

    /// The names that the name index knows.
    pub closed spec fn names(&self) -> Seq<Seq<char>> {
        Seq::new(self.name_keys@.len(), |i: int| self.name_keys@[i]@)
    }

    /// The identifier that the name index gives for each of its names.
    pub closed spec fn named_ids(&self) -> Seq<usize> {
        self.name_ids@
    }

    /// No identifier and no name occurs twice, and every name of the index
    /// leads to an entry that bears it.
    pub open spec fn wf(&self) -> bool {
        &&& self.ids().len() == self.infos().len()
        &&& self.names().len() == self.named_ids().len()
        &&& self.ids().no_duplicates()
        &&& self.names().no_duplicates()
        &&& forall|j: int|
            0 <= j < self.names().len()
                ==> self.bears(#[trigger] self.named_ids()[j], self.names()[j])
    }

    /// The entry of `id` bears `name`.
    pub open spec fn bears(&self, id: usize, name: Seq<char>) -> bool {
        exists|i: int| 0 <= i < self.ids().len()
            && self.ids()[i] == id
            && #[trigger] self.infos()[i].name == name
    }

    /// The name index gives `id` for `name`.
    pub open spec fn indexes(&self, name: Seq<char>, id: usize) -> bool {
        exists|j: int|
            0 <= j < self.names().len() && #[trigger] self.names()[j] == name && self.named_ids()[j]
                == id
    }

    /// The name index is the exact inverse of the entries: besides what
    /// well-formedness says, every entry is found under its name.
    pub open spec fn is_inverse(&self) -> bool {
        forall|i: int|
            0 <= i < self.ids().len() ==> self.indexes(
                (#[trigger] self.infos()[i]).name,
                self.ids()[i],
            )
    }

    /// What the entry of `id` holds, if there is one.
    pub open spec fn info_of(&self, id: usize) -> Option<GameServerInfoView> {
        if self.ids().contains(id) {
            Some(self.infos()[self.ids().index_of(id)])
        } else {
            None
        }
    }

    /// The identifier that the name index gives for `name`, if any.
    pub open spec fn id_of(&self, name: Seq<char>) -> Option<usize> {
        if self.names().contains(name) {
            Some(self.named_ids()[self.names().index_of(name)])
        } else {
            None
        }
    }

    /// The empty directory.
    pub fn new() -> (r: Directory)
        ensures
            r.wf(),
            r.is_inverse(),
            r.ids() == Seq::<usize>::empty(),
            r.names() == Seq::<Seq<char>>::empty(),
    {
        let r = Directory {
            entry_ids: Vec::new(),
            entry_infos: Vec::new(),
            name_keys: Vec::new(),
            name_ids: Vec::new(),
        };
        assert(r.names() =~= Seq::<Seq<char>>::empty());
        r
    }

    /// The number of entries.
    pub fn len(&self) -> (n: usize)
        ensures
            n == self.ids().len(),
    {
        self.entry_ids.len()
    }

    /// The position of the entry of `id`.
    fn position(&self, id: usize) -> (r: Option<usize>)
        ensures
            r is Some <==> self.ids().contains(id),
            r matches Some(i) ==> i < self.ids().len() && self.ids()[i as int] == id,
    {
        let mut i: usize = 0;
        while i < self.entry_ids.len()
            invariant
                i <= self.entry_ids@.len(),
                forall|k: int| 0 <= k < i ==> self.entry_ids@[k] != id,
            decreases self.entry_ids@.len() - i,
        {
            if self.entry_ids[i] == id {
                return Some(i);
            }
            i += 1;
        }
        None
    }

    /// The position of `name` in the name index.
    fn name_position(&self, name: &String) -> (r: Option<usize>)
        ensures
            r is Some <==> self.names().contains(name@),
            r matches Some(j) ==> j < self.names().len() && self.names()[j as int] == name@,
    {
        let mut j: usize = 0;
        while j < self.name_keys.len()
            invariant
                j <= self.name_keys@.len(),
                self.names().len() == self.name_keys@.len(),
                forall|k: int| 0 <= k < j ==> self.names()[k] != name@,
            decreases self.name_keys@.len() - j,
        {
            if self.name_keys[j] == *name {
                assert(self.names()[j as int] == name@);
                return Some(j);
            }
            assert(self.names()[j as int] != name@);
            j += 1;
        }
        None
    }

    /// What the entry of `id` holds, if there is one.
    pub fn get(&self, id: usize) -> (r: Option<&GameServerInfo>)
        requires
            self.wf(),
        ensures
            (match r {
                Some(info) => Some(info@),
                None => None,
            }) == self.info_of(id),
    {
        match self.position(id) {
            Some(i) => {
                proof {
                    self.lemma_position(i as int);
                }
                Some(&self.entry_infos[i])
            },
            None => None,
        }
    }

    /// The identifier and the content of the entry at position `index`, if there is one.
    pub fn get_index(&self, index: usize) -> (r: Option<(usize, &GameServerInfo)>)
        requires
            self.wf(),
        ensures
            index < self.ids().len() <==> r is Some,
            r matches Some((id, info)) ==> id == self.ids()[index as int] && info@
                == self.infos()[index as int],
    {
        if index < self.entry_ids.len() {
            Some((self.entry_ids[index], &self.entry_infos[index]))
        } else {
            None
        }
    }

    /// The identifier that the name index gives for `name`, if any.
    pub fn find(&self, name: &String) -> (r: Option<usize>)
        requires
            self.wf(),
        ensures
            r == self.id_of(name@),
    {
        match self.name_position(name) {
            Some(j) => {
                proof {
                    self.lemma_name_position(j as int);
                }
                Some(self.name_ids[j])
            },
            None => None,
        }
    }

    /// Takes from the name index every name that leads to `id`.
    fn forget_names_of(&mut self, id: usize)
        requires
            old(self).names().len() == old(self).named_ids().len(),
            old(self).names().no_duplicates(),
        ensures
            final(self).ids() == old(self).ids(),
            final(self).infos() == old(self).infos(),
            final(self).names().len() == final(self).named_ids().len(),
            final(self).names().no_duplicates(),
            forall|n: Seq<char>, x: usize|
                final(self).indexes(n, x) <==> (x != id && old(self).indexes(n, x)),
    {
        let mut j: usize = 0;
        while j < self.name_ids.len()
            invariant
                j <= self.name_ids@.len(),
                self.ids() == old(self).ids(),
                self.infos() == old(self).infos(),
                self.names().len() == self.named_ids().len(),
                self.names().no_duplicates(),
                forall|k: int| 0 <= k < j ==> self.named_ids()[k] != id,
                forall|n: Seq<char>, x: usize|
                    self.indexes(n, x) <==> (old(self).indexes(n, x) && (x != id || exists|k: int|
                        j <= k < self.names().len() && #[trigger] self.names()[k] == n
                            && self.named_ids()[k] == x)),
            decreases self.name_ids@.len() - j,
        {
            if self.name_ids[j] == id {
                let ghost before = *self;
                self.name_keys.remove(j);
                self.name_ids.remove(j);
                proof {
                    assert(self.names() =~= before.names().remove(j as int));
                    assert(self.named_ids() =~= before.named_ids().remove(j as int));
                    assert(self.infos() =~= before.infos());
                    assert forall|a: int, b: int|
                        0 <= a < self.names().len() && 0 <= b < self.names().len() && a
                            != b implies self.names()[a] != self.names()[b] by {
                        let a0 = if a < j { a } else { a + 1 };
                        let b0 = if b < j { b } else { b + 1 };
                        assert(self.names()[a] == before.names()[a0]);
                        assert(self.names()[b] == before.names()[b0]);
                    }
                    assert forall|n: Seq<char>, x: usize|
                        self.indexes(n, x) <==> (old(self).indexes(n, x) && (x != id
                            || exists|k: int|
                            j <= k < self.names().len() && #[trigger] self.names()[k] == n
                                && self.named_ids()[k] == x)) by {
                        if self.indexes(n, x) {
                            let k = choose|k: int|
                                0 <= k < self.names().len() && #[trigger] self.names()[k] == n
                                    && self.named_ids()[k] == x;
                            let k0 = if k < j { k } else { k + 1 };
                            assert(before.names()[k0] == n && before.named_ids()[k0] == x);
                            assert(before.indexes(n, x));
                            if x == id {
                                assert(k >= j);
                            }
                        }
                        if old(self).indexes(n, x) && x != id {
                            assert(before.indexes(n, x));
                            let k0 = choose|k: int|
                                0 <= k < before.names().len() && #[trigger] before.names()[k] == n
                                    && before.named_ids()[k] == x;
                            assert(k0 != j);
                            let k = if k0 < j { k0 } else { k0 - 1 };
                            assert(self.names()[k] == n && self.named_ids()[k] == x);
                        }
                        if old(self).indexes(n, x) && x == id && exists|k: int|
                            j <= k < self.names().len() && #[trigger] self.names()[k] == n
                                && self.named_ids()[k] == x {
                            let k = choose|k: int|
                                j <= k < self.names().len() && #[trigger] self.names()[k] == n
                                    && self.named_ids()[k] == x;
                            assert(self.names()[k] == n && self.named_ids()[k] == x);
                        }
                    }
                }
            } else {
                proof {
                    assert forall|n: Seq<char>, x: usize|
                        self.indexes(n, x) <==> (old(self).indexes(n, x) && (x != id
                            || exists|k: int|
                            j + 1 <= k < self.names().len() && #[trigger] self.names()[k] == n
                                && self.named_ids()[k] == x)) by {
                        if self.indexes(n, x) && x == id {
                            let k = choose|k: int|
                                j <= k < self.names().len() && #[trigger] self.names()[k] == n
                                    && self.named_ids()[k] == x;
                            assert(k != j);
                        }
                    }
                }
                j += 1;
            }
        }
        proof {
            assert forall|n: Seq<char>, x: usize|
                self.indexes(n, x) <==> (x != id && old(self).indexes(n, x)) by {
                if self.indexes(n, x) {
                    let k = choose|k: int|
                        0 <= k < self.names().len() && #[trigger] self.names()[k] == n
                            && self.named_ids()[k] == x;
                    assert(x != id);
                }
            }
        }
    }

    /// No entry but that of `id` bears `name`.
    pub open spec fn name_is_free_for(&self, id: usize, name: Seq<char>) -> bool {
        forall|i: int|
            0 <= i < self.ids().len() && (#[trigger] self.infos()[i]).name == name ==> self.ids()[i]
                == id
    }

    /// `after` is this directory with `info` written as the entry of `id`:
    /// over the entry that was there, or as a new last entry; the name index
    /// has forgotten the name that `id` had and gives `id` for the new name.
    pub open spec fn info_written(
        &self,
        after: &Directory,
        id: usize,
        info: GameServerInfoView,
    ) -> bool {
        &&& after.ids() == if self.ids().contains(id) {
            self.ids()
        } else {
            self.ids().push(id)
        }
        &&& after.infos() == if self.ids().contains(id) {
            self.infos().update(self.ids().index_of(id), info)
        } else {
            self.infos().push(info)
        }
        &&& forall|n: Seq<char>, x: usize|
            after.indexes(n, x) <==> if n == info.name {
                x == id
            } else {
                x != id && self.indexes(n, x)
            }
    }

    /// `after` is this directory with the two player counts written into the
    /// entry of `id`, where there is one, and all else as it was.
    pub open spec fn count_written(
        &self,
        after: &Directory,
        id: usize,
        players_on: u64,
        max_players: u64,
    ) -> bool {
        &&& after.ids() == self.ids()
        &&& after.names() == self.names()
        &&& after.named_ids() == self.named_ids()
        &&& after.infos() == if self.ids().contains(id) {
            self.infos().update(
                self.ids().index_of(id),
                GameServerInfoView {
                    players_on,
                    max_players,
                    ..self.infos()[self.ids().index_of(id)]
                },
            )
        } else {
            self.infos()
        }
    }

    /// Writes `info` as the entry of `id`: over the entry that is there, or as
    /// a new last entry. The name index forgets the name that `id` had and
    /// gives `id` for the new name, also where it gave another identifier before.
    ///
    /// Where no other entry bears the new name, an index that was the exact
    /// inverse of the entries is so afterwards.
    pub fn update_info(&mut self, id: usize, info: GameServerInfo)
        requires
            old(self).wf(),
        ensures
            final(self).wf(),
            old(self).info_written(final(self), id, info@),
            old(self).is_inverse() && old(self).name_is_free_for(id, info@.name)
                ==> final(self).is_inverse(),
    {
        let name = info.name.clone();
        let ghost value = info@;
        self.forget_names_of(id);
        let ghost cleared = *self;
        let ghost mut w: int = 0;
        match self.name_position(&name) {
            Some(j) => {
                self.name_ids.set(j, id);
                proof {
                    w = j as int;
                    assert(self.names() =~= cleared.names());
                    assert(self.infos() =~= cleared.infos());
                }
            },
            None => {
                self.name_keys.push(name);
                self.name_ids.push(id);
                proof {
                    w = cleared.names().len() as int;
                    assert(self.names() =~= cleared.names().push(value.name));
                    assert(self.infos() =~= cleared.infos());
                    let last = cleared.names().len() as int;
                    assert forall|a: int, b: int|
                        0 <= a < self.names().len() && 0 <= b < self.names().len() && a
                            != b implies self.names()[a] != self.names()[b] by {
                        if a < last {
                            assert(cleared.names()[a] == self.names()[a]);
                            assert(cleared.names().contains(self.names()[a]));
                        }
                        if b < last {
                            assert(cleared.names()[b] == self.names()[b]);
                            assert(cleared.names().contains(self.names()[b]));
                        }
                    }
                }
            },
        }
        let ghost named = *self;
        proof {
            assert(0 <= w < named.names().len() && named.names()[w] == value.name
                && named.named_ids()[w] == id);
            assert forall|n: Seq<char>, x: usize|
                named.indexes(n, x) <==> if n == value.name {
                    x == id
                } else {
                    cleared.indexes(n, x)
                } by {
                if named.indexes(n, x) {
                    let k = choose|k: int|
                        0 <= k < named.names().len() && #[trigger] named.names()[k] == n
                            && named.named_ids()[k] == x;
                    if k < cleared.names().len() && n != value.name {
                        assert(cleared.names()[k] == n && cleared.named_ids()[k] == x);
                    }
                    if n == value.name {
                        assert(k == w);
                    }
                }
                if n != value.name && cleared.indexes(n, x) {
                    let k = choose|k: int|
                        0 <= k < cleared.names().len() && #[trigger] cleared.names()[k] == n
                            && cleared.named_ids()[k] == x;
                    assert(named.names()[k] == n && named.named_ids()[k] == x);
                }
                if n == value.name && x == id {
                    assert(named.names()[w] == n && named.named_ids()[w] == x);
                }
            }
        }
        let ghost mut pos: int = 0;
        match self.position(id) {
            Some(i) => {
                self.entry_infos.set(i, info);
                proof {
                    pos = i as int;
                    old(self).lemma_position(i as int);
                    assert(self.infos() =~= old(self).infos().update(i as int, value));
                    assert(self.names() =~= named.names());
                }
            },
            None => {
                self.entry_ids.push(id);
                self.entry_infos.push(info);
                proof {
                    pos = old(self).ids().len() as int;
                    assert(self.infos() =~= old(self).infos().push(value));
                    assert(self.names() =~= named.names());
                    let last = old(self).ids().len() as int;
                    assert forall|a: int, b: int|
                        0 <= a < self.ids().len() && 0 <= b < self.ids().len() && a
                            != b implies self.ids()[a] != self.ids()[b] by {
                        if a < last {
                            assert(old(self).ids().contains(self.ids()[a]));
                        }
                        if b < last {
                            assert(old(self).ids().contains(self.ids()[b]));
                        }
                    }
                }
            },
        }
        proof {
            assert(0 <= pos < self.ids().len() && self.ids()[pos] == id);
            assert(self.infos()[pos] == value);
            assert forall|n: Seq<char>, x: usize|
                self.indexes(n, x) <==> named.indexes(n, x) by {
                if self.indexes(n, x) {
                    let k = choose|k: int|
                        0 <= k < self.names().len() && #[trigger] self.names()[k] == n
                            && self.named_ids()[k] == x;
                    assert(named.names()[k] == n && named.named_ids()[k] == x);
                }
                if named.indexes(n, x) {
                    let k = choose|k: int|
                        0 <= k < named.names().len() && #[trigger] named.names()[k] == n
                            && named.named_ids()[k] == x;
                    assert(self.names()[k] == n && self.named_ids()[k] == x);
                }
            }
            assert forall|n: Seq<char>, x: usize|
                self.indexes(n, x) <==> if n == value.name {
                    x == id
                } else {
                    x != id && old(self).indexes(n, x)
                } by {
                assert(self.indexes(n, x) <==> named.indexes(n, x));
                assert(cleared.indexes(n, x) <==> (x != id && old(self).indexes(n, x)));
            }
            assert forall|j: int| 0 <= j < self.names().len() implies self.bears(
                #[trigger] self.named_ids()[j],
                self.names()[j],
            ) by {
                let n = self.names()[j];
                let x = self.named_ids()[j];
                assert(self.indexes(n, x));
                if n == value.name {
                    assert(x == id);
                    assert(self.infos()[pos].name == n);
                } else {
                    assert(old(self).indexes(n, x));
                    let k = choose|k: int|
                        0 <= k < old(self).names().len() && #[trigger] old(self).names()[k] == n
                            && old(self).named_ids()[k] == x;
                    assert(old(self).bears(old(self).named_ids()[k], old(self).names()[k]));
                    let i = choose|i: int|
                        0 <= i < old(self).ids().len() && old(self).ids()[i] == x
                            && #[trigger] old(self).infos()[i].name == n;
                    assert(self.ids()[i] == x);
                    assert(self.infos()[i].name == n);
                }
            }
            if old(self).is_inverse() && old(self).name_is_free_for(id, value.name) {
                assert forall|i: int| 0 <= i < self.ids().len() implies self.indexes(
                    (#[trigger] self.infos()[i]).name,
                    self.ids()[i],
                ) by {
                    if self.ids()[i] == id {
                        assert(i == pos);
                        assert(self.indexes(value.name, id));
                    } else {
                        assert(i != pos);
                        assert(i < old(self).ids().len());
                        assert(old(self).ids()[i] == self.ids()[i]);
                        assert(old(self).infos()[i] == self.infos()[i]);
                        let n = old(self).infos()[i].name;
                        let x = old(self).ids()[i];
                        assert(old(self).indexes(n, x));
                        assert(n != value.name);
                        assert(self.indexes(n, x));
                    }
                }
            }
        }
    }

    /// Writes the two player counts into the entry of `id`, where there is
    /// one, and leaves all else as it is. Tells whether there was one.
    pub fn update_count(&mut self, id: usize, players_on: u64, max_players: u64) -> (found: bool)
        requires
            old(self).wf(),
        ensures
            final(self).wf(),
            found == old(self).ids().contains(id),
            old(self).count_written(final(self), id, players_on, max_players),
            old(self).is_inverse() ==> final(self).is_inverse(),
    {
        match self.position(id) {
            None => {
                proof {
                    assert(self.infos() =~= old(self).infos());
                }
                false
            },
            Some(i) => {
                let current = &self.entry_infos[i];
                let info = GameServerInfo {
                    name: current.name.clone(),
                    ip: current.ip.clone(),
                    port: current.port,
                    players_on,
                    max_players,
                };
                let ghost value = info@;
                self.entry_infos.set(i, info);
                proof {
                    old(self).lemma_position(i as int);
                    assert(self.infos() =~= old(self).infos().update(i as int, value));
                    assert(self.names() =~= old(self).names());
                    assert forall|j: int| 0 <= j < self.names().len() implies self.bears(
                        #[trigger] self.named_ids()[j],
                        self.names()[j],
                    ) by {
                        assert(old(self).bears(old(self).named_ids()[j], old(self).names()[j]));
                        let k = choose|k: int|
                            0 <= k < old(self).ids().len()
                                && old(self).ids()[k] == old(self).named_ids()[j]
                                && #[trigger] old(self).infos()[k].name == old(self).names()[j];
                        assert(self.infos()[k].name == self.names()[j]);
                    }
                    if old(self).is_inverse() {
                        assert forall|k: int| 0 <= k < self.ids().len() implies self.indexes(
                            (#[trigger] self.infos()[k]).name,
                            self.ids()[k],
                        ) by {
                            assert(old(self).indexes(old(self).infos()[k].name, old(self).ids()[k]));
                            let j = choose|j: int|
                                0 <= j < old(self).names().len() && #[trigger] old(self).names()[j]
                                    == old(self).infos()[k].name
                                        && old(self).named_ids()[j] == old(self).ids()[k];
                            assert(self.names()[j] == self.infos()[k].name);
                        }
                    }
                }
                true
            },
        }
    }

    /// Takes out the entry of `id`, where there is one, and with it every name
    /// that led to `id`. The entries that stay keep their order. Tells
    /// whether there was one.
    pub fn remove(&mut self, id: usize) -> (found: bool)
        requires
            old(self).wf(),
        ensures
            final(self).wf(),
            found == old(self).ids().contains(id),
            !final(self).ids().contains(id),
            final(self).ids() == if found {
                old(self).ids().remove(old(self).ids().index_of(id))
            } else {
                old(self).ids()
            },
            final(self).infos() == if found {
                old(self).infos().remove(old(self).ids().index_of(id))
            } else {
                old(self).infos()
            },
            forall|n: Seq<char>, x: usize|
                final(self).indexes(n, x) <==> x != id && old(self).indexes(n, x),
            old(self).is_inverse() ==> final(self).is_inverse(),
    {
        self.forget_names_of(id);
        let ghost cleared = *self;
        let found = match self.position(id) {
            None => false,
            Some(i) => {
                self.entry_ids.remove(i);
                self.entry_infos.remove(i);
                proof {
                    old(self).lemma_position(i as int);
                    assert(self.infos() =~= old(self).infos().remove(i as int));
                    assert(self.names() =~= cleared.names());
                    if self.ids().contains(id) {
                        let k = choose|k: int| 0 <= k < self.ids().len() && self.ids()[k] == id;
                        let k0 = if k < i { k } else { k + 1 };
                        assert(old(self).ids()[k0] == id);
                    }
                    assert forall|a: int, b: int|
                        0 <= a < self.ids().len() && 0 <= b < self.ids().len() && a
                            != b implies self.ids()[a] != self.ids()[b] by {
                        let a0 = if a < i { a } else { a + 1 };
                        let b0 = if b < i { b } else { b + 1 };
                        assert(self.ids()[a] == old(self).ids()[a0]);
                        assert(self.ids()[b] == old(self).ids()[b0]);
                    }
                }
                true
            },
        };
        proof {
            assert(self.names() =~= cleared.names());
            assert forall|n: Seq<char>, x: usize|
                self.indexes(n, x) <==> x != id && old(self).indexes(n, x) by {
                assert(cleared.indexes(n, x) <==> (x != id && old(self).indexes(n, x)));
                if self.indexes(n, x) {
                    let k = choose|k: int|
                        0 <= k < self.names().len() && #[trigger] self.names()[k] == n
                            && self.named_ids()[k] == x;
                    assert(cleared.names()[k] == n && cleared.named_ids()[k] == x);
                }
                if cleared.indexes(n, x) {
                    let k = choose|k: int|
                        0 <= k < cleared.names().len() && #[trigger] cleared.names()[k] == n
                            && cleared.named_ids()[k] == x;
                    assert(self.names()[k] == n && self.named_ids()[k] == x);
                }
            }
            let gone: int = if found { old(self).ids().index_of(id) } else { -1 };
            assert forall|j: int| 0 <= j < self.names().len() implies self.bears(
                #[trigger] self.named_ids()[j],
                self.names()[j],
            ) by {
                let n = self.names()[j];
                let x = self.named_ids()[j];
                assert(self.indexes(n, x));
                assert(old(self).indexes(n, x) && x != id);
                let k = choose|k: int|
                    0 <= k < old(self).names().len() && #[trigger] old(self).names()[k] == n
                        && old(self).named_ids()[k] == x;
                assert(old(self).bears(old(self).named_ids()[k], old(self).names()[k]));
                let i0 = choose|i: int|
                    0 <= i < old(self).ids().len() && old(self).ids()[i] == x
                        && #[trigger] old(self).infos()[i].name == n;
                let i1 = if found && i0 > gone { i0 - 1 } else { i0 };
                assert(self.ids()[i1] == x);
                assert(self.infos()[i1].name == n);
            }
            if old(self).is_inverse() {
                assert forall|i: int| 0 <= i < self.ids().len() implies self.indexes(
                    (#[trigger] self.infos()[i]).name,
                    self.ids()[i],
                ) by {
                    let i0 = if found && i >= gone { i + 1 } else { i };
                    assert(old(self).ids()[i0] == self.ids()[i]);
                    assert(old(self).infos()[i0] == self.infos()[i]);
                    assert(old(self).indexes(old(self).infos()[i0].name, old(self).ids()[i0]));
                    assert(self.ids().contains(self.ids()[i]));
                }
            }
        }
        found
    }

    /// What [`Directory::find`] answers, in terms of the name index.
    pub proof fn lemma_id_of(&self, name: Seq<char>, id: usize)
        requires
            self.wf(),
        ensures
            self.id_of(name) == Some(id) <==> self.indexes(name, id),
    {
        if self.indexes(name, id) {
            let j = choose|j: int|
                0 <= j < self.names().len() && #[trigger] self.names()[j] == name
                    && self.named_ids()[j] == id;
            self.lemma_name_position(j);
        }
        if self.id_of(name) == Some(id) {
            let j = self.names().index_of(name);
            assert(0 <= j < self.names().len() && self.names()[j] == name);
        }
    }

    /// A position that holds an identifier is the one found for it.
    proof fn lemma_position(&self, i: int)
        requires
            self.ids().no_duplicates(),
            0 <= i < self.ids().len(),
        ensures
            self.ids().contains(self.ids()[i]),
            self.ids().index_of(self.ids()[i]) == i,
    {
        let id = self.ids()[i];
        assert(self.ids().contains(id));
        let k = self.ids().index_of(id);
        assert(0 <= k < self.ids().len() && self.ids()[k] == id);
    }

    /// A position that holds a name is the one found for it.
    proof fn lemma_name_position(&self, j: int)
        requires
            self.names().no_duplicates(),
            0 <= j < self.names().len(),
        ensures
            self.names().contains(self.names()[j]),
            self.names().index_of(self.names()[j]) == j,
    {
        let name = self.names()[j];
        assert(self.names().contains(name));
        let k = self.names().index_of(name);
        assert(0 <= k < self.names().len() && self.names()[k] == name);
    }
}

/// A server is found under the name it was last written with: once `info`
/// has been written as the entry of `id`, the name index gives `id` for the
/// name of `info`, and the entry of `id` holds `info`.
pub proof fn law_written_entry_is_found(
    before: Directory,
    after: Directory,
    id: usize,
    info: GameServerInfoView,
)
    requires
        before.wf(),
        after.wf(),
        before.info_written(&after, id, info),
    ensures
        after.id_of(info.name) == Some(id),
        after.info_of(id) == Some(info),
{
    assert(after.indexes(info.name, id));
    after.lemma_id_of(info.name, id);
    if before.ids().contains(id) {
        let i = before.ids().index_of(id);
        assert(0 <= i < before.ids().len() && before.ids()[i] == id);
        after.lemma_position(i);
    } else {
        let i = before.ids().len() as int;
        assert(after.ids()[i] == id);
        after.lemma_position(i);
    }
}

/// The name index stays the exact inverse of the entries through the
/// writing of an entry under a name that no other entry bears, and through
/// the writing of player counts.
pub proof fn law_index_stays_inverse(
    before: Directory,
    after: Directory,
    id: usize,
    info: GameServerInfoView,
)
    requires
        before.wf(),
        before.is_inverse(),
        after.wf(),
        ({
            ||| before.info_written(&after, id, info) && before.name_is_free_for(id, info.name)
            ||| before.count_written(&after, id, info.players_on, info.max_players)
        }),
    ensures
        after.is_inverse(),
{
    if before.info_written(&after, id, info) && before.name_is_free_for(id, info.name) {
        assert forall|i: int| 0 <= i < after.ids().len() implies after.indexes(
            (#[trigger] after.infos()[i]).name,
            after.ids()[i],
        ) by {
            if after.ids()[i] == id {
                if before.ids().contains(id) {
                    let p = before.ids().index_of(id);
                    assert(0 <= p < before.ids().len() && before.ids()[p] == id);
                    assert(after.ids()[p] == id);
                    assert(i == p);
                } else {
                    assert(i == before.ids().len());
                }
                assert(after.infos()[i] == info);
            } else {
                assert(i < before.ids().len());
                assert(before.ids()[i] == after.ids()[i]);
                if before.ids().contains(id) {
                    let p = before.ids().index_of(id);
                    assert(0 <= p < before.ids().len() && before.ids()[p] == id);
                    assert(i != p);
                }
                assert(before.infos()[i] == after.infos()[i]);
                let n = before.infos()[i].name;
                assert(before.indexes(n, before.ids()[i]));
                assert(n != info.name);
            }
        }
    } else {
        assert forall|i: int| 0 <= i < after.ids().len() implies after.indexes(
            (#[trigger] after.infos()[i]).name,
            after.ids()[i],
        ) by {
            assert(before.indexes(before.infos()[i].name, before.ids()[i]));
            let j = choose|j: int|
                0 <= j < before.names().len() && #[trigger] before.names()[j]
                    == before.infos()[i].name && before.named_ids()[j] == before.ids()[i];
            assert(after.names()[j] == after.infos()[i].name);
            if before.ids().contains(id) {
                let p = before.ids().index_of(id);
                assert(0 <= p < before.ids().len() && before.ids()[p] == id);
            }
        }
    }
}

} // verus!
