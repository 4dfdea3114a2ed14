//! The citizen table and the contact table the dispatch core queries.
//!
//! The table maps a primary key `id` to a citizen record; ids are unique.
//! Lookups by number and by name return the matching record; pagination
//! walks ids in order: the next citizen after `id` is the one with the
//! smallest id above it, the previous the one with the largest id below
//! it. Contacts are pairs `(owner, other)`.

use vstd::prelude::*;

use crate::bytes::{bytes_eq, clone_bytes};

verus! {

/// One citizen record, as the directory stores and projects it.
pub struct CitizenQuery {
    pub id: u32,
    pub changed: u32,
    pub name: Vec<u8>,
    pub password: Vec<u8>,
    pub email: Vec<u8>,
    pub priv_pass: Vec<u8>,
    pub comment: Vec<u8>,
    pub url: Vec<u8>,
    pub immigration: u32,
    pub expiration: u32,
    pub last_login: u32,
    pub last_address: u32,
    pub total_time: u32,
    pub bot_limit: u32,
    pub beta: u32,
    pub cav_enabled: u32,
    pub cav_template: u32,
    pub enabled: u32,
    pub privacy: u32,
    pub trial: u32,
}

/// The mathematical value of a citizen record.
pub ghost struct CitizenV {
    pub id: u32,
    pub changed: u32,
    pub name: Seq<u8>,
    pub password: Seq<u8>,
    pub email: Seq<u8>,
    pub priv_pass: Seq<u8>,
    pub comment: Seq<u8>,
    pub url: Seq<u8>,
    pub immigration: u32,
    pub expiration: u32,
    pub last_login: u32,
    pub last_address: u32,
    pub total_time: u32,
    pub bot_limit: u32,
    pub beta: u32,
    pub cav_enabled: u32,
    pub cav_template: u32,
    pub enabled: u32,
    pub privacy: u32,
    pub trial: u32,
}

impl View for CitizenQuery {
    type V = CitizenV;

    open spec fn view(&self) -> CitizenV {
        CitizenV {
            id: self.id,
            changed: self.changed,
            name: self.name@,
            password: self.password@,
            email: self.email@,
            priv_pass: self.priv_pass@,
            comment: self.comment@,
            url: self.url@,
            immigration: self.immigration,
            expiration: self.expiration,
            last_login: self.last_login,
            last_address: self.last_address,
            total_time: self.total_time,
            bot_limit: self.bot_limit,
            beta: self.beta,
            cav_enabled: self.cav_enabled,
            cav_template: self.cav_template,
            enabled: self.enabled,
            privacy: self.privacy,
            trial: self.trial,
        }
    }
}

impl Clone for CitizenQuery {
    /// A clone carries every field.
    fn clone(&self) -> (r: Self)
        ensures
            r@ == self@,
    {
        CitizenQuery {
            id: self.id,
            changed: self.changed,
            name: clone_bytes(&self.name),
            password: clone_bytes(&self.password),
            email: clone_bytes(&self.email),
            priv_pass: clone_bytes(&self.priv_pass),
            comment: clone_bytes(&self.comment),
            url: clone_bytes(&self.url),
            immigration: self.immigration,
            expiration: self.expiration,
            last_login: self.last_login,
            last_address: self.last_address,
            total_time: self.total_time,
            bot_limit: self.bot_limit,
            beta: self.beta,
            cav_enabled: self.cav_enabled,
            cav_template: self.cav_template,
            enabled: self.enabled,
            privacy: self.privacy,
            trial: self.trial,
        }
    }
}

/// The mathematical value of the database.
pub ghost struct CitizenDbV {
    pub citizens: Seq<CitizenV>,
    pub contacts: Seq<(u32, u32)>,
}

/// The in-memory citizen and contact tables.
pub struct CitizenDb {
    pub citizens: Vec<CitizenQuery>,
    pub contacts: Vec<(u32, u32)>,
}

impl View for CitizenDb {
    type V = CitizenDbV;

    open spec fn view(&self) -> CitizenDbV {
        CitizenDbV {
            citizens: self.citizens@.map_values(|c: CitizenQuery| c@),
            contacts: self.contacts@,
        }
    }
}

/// Whether some record in `s` carries the id.
pub open spec fn has_citizen_number(s: Seq<CitizenV>, id: u32) -> bool {
    exists|i: int| 0 <= i < s.len() && (#[trigger] s[i]).id == id
}

/// Whether some record in `s` carries the name.
pub open spec fn has_citizen_name(s: Seq<CitizenV>, name: Seq<u8>) -> bool {
    exists|i: int| 0 <= i < s.len() && (#[trigger] s[i]).name == name
}

impl CitizenDbV {
    /// Table invariant: ids are unique.
    pub open spec fn wf(self) -> bool {
        forall|i: int, j: int|
            0 <= i < j < self.citizens.len() ==> (#[trigger] self.citizens[i]).id != (
            #[trigger] self.citizens[j]).id
    }
}

impl CitizenDb {
    /// An empty database.
    pub fn new() -> (r: Self)
        ensures
            r@.citizens == Seq::<CitizenV>::empty(),
            r@.contacts == Seq::<(u32, u32)>::empty(),
            r@.wf(),
    {
        let r = CitizenDb { citizens: Vec::new(), contacts: Vec::new() };
        assert(r@.citizens =~= Seq::<CitizenV>::empty());
        assert(r@.contacts =~= Seq::<(u32, u32)>::empty());
        r
    }

    /// Inserts a record; refused when its id is already taken, so ids
    /// stay unique.
    pub fn citizen_add(&mut self, q: CitizenQuery) -> (r: bool)
        requires
            old(self)@.wf(),
        ensures
            final(self)@.wf(),
            final(self)@.contacts == old(self)@.contacts,
            r ==> !has_citizen_number(old(self)@.citizens, q@.id) && final(self)@.citizens
                == old(self)@.citizens.push(q@),
            !r ==> has_citizen_number(old(self)@.citizens, q@.id) && final(self)@ == old(
                self,
            )@,
    {
        let mut i: usize = 0;
        while i < self.citizens.len()
            invariant
                i <= self.citizens.len(),
                self@ == old(self)@,
                old(self)@.wf(),
                forall|j: int| 0 <= j < i ==> (#[trigger] self@.citizens[j]).id != q@.id,
            decreases self.citizens.len() - i,
        {
            if self.citizens[i].id == q.id {
                assert(old(self)@.citizens[i as int].id == q@.id);
                return false;
            }
            i = i + 1;
        }
        self.citizens.push(q);
        proof {
            assert(self@.citizens =~= old(self)@.citizens.push(q@));
        }
        true
    }

    /// Records a contact pair `(owner, other)`.
    pub fn add_contact(&mut self, owner: u32, other: u32)
        ensures
            final(self)@.citizens == old(self)@.citizens,
            final(self)@.contacts == old(self)@.contacts.push((owner, other)),
    {
        self.contacts.push((owner, other));
    }

    /// The record with the given id, if the table holds one.
    pub fn citizen_by_number(&self, id: u32) -> (r: Option<CitizenQuery>)
        ensures
            match r {
                Some(c) => has_citizen_number(self@.citizens, id) && c@.id == id && (exists|
                    i: int,
                |
                    0 <= i < self@.citizens.len() && (#[trigger] self@.citizens[i]) == c@)
                    && spec_citizen_by_number(self@.citizens, id) == Some(c@),
                None => !has_citizen_number(self@.citizens, id) && spec_citizen_by_number(
                    self@.citizens,
                    id,
                ) is None,
            },
    {
        let mut i: usize = 0;
        assert(self@.citizens.skip(0) =~= self@.citizens);
        while i < self.citizens.len()
            invariant
                i <= self.citizens.len(),
                forall|j: int| 0 <= j < i ==> (#[trigger] self@.citizens[j]).id != id,
                spec_citizen_by_number(self@.citizens, id) == spec_citizen_by_number(
                    self@.citizens.skip(i as int),
                    id,
                ),
            decreases self.citizens.len() - i,
        {
            assert(self@.citizens.skip(i as int)[0] == self@.citizens[i as int]);
            assert(self@.citizens.skip(i as int).skip(1) =~= self@.citizens.skip(i as int + 1));
            if self.citizens[i].id == id {
                let c = self.citizens[i].clone();
                assert(self@.citizens[i as int] == c@);
                return Some(c);
            }
            i = i + 1;
        }
        assert(self@.citizens.skip(i as int) =~= Seq::<CitizenV>::empty());
        None
    }

    /// The record with the given name, if the table holds one; the
    /// earliest such record where names repeat.
    pub fn citizen_by_name(&self, name: &Vec<u8>) -> (r: Option<CitizenQuery>)
        ensures
            match r {
                Some(c) => has_citizen_name(self@.citizens, name@) && c@.name == name@ && (
                exists|i: int|
                    0 <= i < self@.citizens.len() && (#[trigger] self@.citizens[i]) == c@)
                    && spec_citizen_by_name(self@.citizens, name@) == Some(c@),
                None => !has_citizen_name(self@.citizens, name@) && spec_citizen_by_name(
                    self@.citizens,
                    name@,
                ) is None,
            },
    {
        let mut i: usize = 0;
        assert(self@.citizens.skip(0) =~= self@.citizens);
        while i < self.citizens.len()
            invariant
                i <= self.citizens.len(),
                forall|j: int| 0 <= j < i ==> (#[trigger] self@.citizens[j]).name != name@,
                spec_citizen_by_name(self@.citizens, name@) == spec_citizen_by_name(
                    self@.citizens.skip(i as int),
                    name@,
                ),
            decreases self.citizens.len() - i,
        {
            assert(self@.citizens.skip(i as int)[0] == self@.citizens[i as int]);
            assert(self@.citizens.skip(i as int).skip(1) =~= self@.citizens.skip(i as int + 1));
            if bytes_eq(&self.citizens[i].name, name) {
                let c = self.citizens[i].clone();
                assert(self@.citizens[i as int] == c@);
                return Some(c);
            }
            i = i + 1;
        }
        assert(self@.citizens.skip(i as int) =~= Seq::<CitizenV>::empty());
        None
    }

    /// The record with the smallest id strictly above `id`, if any: one
    /// step of forward pagination.
    pub fn next_citizen(&self, id: u32) -> (r: Option<CitizenQuery>)
        requires
            self@.wf(),
        ensures
            match r {
                Some(c) => {
                    &&& exists|i: int|
                        0 <= i < self@.citizens.len() && (#[trigger] self@.citizens[i]) == c@
                    &&& c@.id > id
                    &&& forall|j: int|
                        0 <= j < self@.citizens.len() && (#[trigger] self@.citizens[j]).id > id
                            ==> c@.id <= self@.citizens[j].id
                    &&& spec_next_citizen(self@.citizens, id) == Some(c@)
                },
                None => (forall|j: int|
                    0 <= j < self@.citizens.len() ==> !((#[trigger] self@.citizens[j]).id > id))
                    && spec_next_citizen(self@.citizens, id) is None,
            },
    {
        let mut best: Option<usize> = None;
        let mut i: usize = 0;
        while i < self.citizens.len()
            invariant
                i <= self.citizens.len(),
                match best {
                    Some(b) => {
                        &&& b < i
                        &&& self@.citizens[b as int].id > id
                        &&& forall|j: int|
                            0 <= j < i && (#[trigger] self@.citizens[j]).id > id
                                ==> self@.citizens[b as int].id <= self@.citizens[j].id
                    },
                    None => forall|j: int|
                        0 <= j < i ==> !((#[trigger] self@.citizens[j]).id > id),
                },
            decreases self.citizens.len() - i,
        {
            if self.citizens[i].id > id {
                match best {
                    Some(b) => {
                        if self.citizens[i].id < self.citizens[b].id {
                            best = Some(i);
                        }
                    }
                    None => {
                        best = Some(i);
                    }
                }
            }
            i = i + 1;
        }
        proof {
            lemma_next_citizen_characterization(self@.citizens, id);
            match best {
                Some(b) => {
                    match spec_next_citizen(self@.citizens, id) {
                        Some(c2) => {
                            let i2 = choose|k: int|
                                0 <= k < self@.citizens.len() && (#[trigger] self@.citizens[k])
                                    == c2;
                            if i2 != b as int {
                                assert(self@.citizens[i2].id != self@.citizens[b as int].id);
                                assert(false);
                            }
                        }
                        None => {
                            assert(self@.citizens[b as int].id > id);
                            assert(false);
                        }
                    }
                }
                None => {}
            }
        }
        match best {
            Some(b) => {
                let c = self.citizens[b].clone();
                assert(self@.citizens[b as int] == c@);
                Some(c)
            }
            None => None,
        }
    }

    /// The record with the largest id strictly below `id`, if any: one
    /// step of backward pagination.
    pub fn prev_citizen(&self, id: u32) -> (r: Option<CitizenQuery>)
        requires
            self@.wf(),
        ensures
            match r {
                Some(c) => {
                    &&& exists|i: int|
                        0 <= i < self@.citizens.len() && (#[trigger] self@.citizens[i]) == c@
                    &&& c@.id < id
                    &&& forall|j: int|
                        0 <= j < self@.citizens.len() && (#[trigger] self@.citizens[j]).id < id
                            ==> c@.id >= self@.citizens[j].id
                    &&& spec_prev_citizen(self@.citizens, id) == Some(c@)
                },
                None => (forall|j: int|
                    0 <= j < self@.citizens.len() ==> !((#[trigger] self@.citizens[j]).id < id))
                    && spec_prev_citizen(self@.citizens, id) is None,
            },
    {
        let mut best: Option<usize> = None;
        let mut i: usize = 0;
        while i < self.citizens.len()
            invariant
                i <= self.citizens.len(),
                match best {
                    Some(b) => {
                        &&& b < i
                        &&& self@.citizens[b as int].id < id
                        &&& forall|j: int|
                            0 <= j < i && (#[trigger] self@.citizens[j]).id < id
                                ==> self@.citizens[b as int].id >= self@.citizens[j].id
                    },
                    None => forall|j: int|
                        0 <= j < i ==> !((#[trigger] self@.citizens[j]).id < id),
                },
            decreases self.citizens.len() - i,
        {
            if self.citizens[i].id < id {
                match best {
                    Some(b) => {
                        if self.citizens[i].id > self.citizens[b].id {
                            best = Some(i);
                        }
                    }
                    None => {
                        best = Some(i);
                    }
                }
            }
            i = i + 1;
        }
        proof {
            lemma_prev_citizen_characterization(self@.citizens, id);
            match best {
                Some(b) => {
                    match spec_prev_citizen(self@.citizens, id) {
                        Some(c2) => {
                            let i2 = choose|k: int|
                                0 <= k < self@.citizens.len() && (#[trigger] self@.citizens[k])
                                    == c2;
                            if i2 != b as int {
                                assert(self@.citizens[i2].id != self@.citizens[b as int].id);
                                assert(false);
                            }
                        }
                        None => {
                            assert(self@.citizens[b as int].id < id);
                            assert(false);
                        }
                    }
                }
                None => {}
            }
        }
        match best {
            Some(b) => {
                let c = self.citizens[b].clone();
                assert(self@.citizens[b as int] == c@);
                Some(c)
            }
            None => None,
        }
    }

    /// Overwrites the record whose id equals `q.id`; refused when the
    /// table holds no such record. Nothing else moves.
    pub fn citizen_change(&mut self, q: &CitizenQuery) -> (r: bool)
        requires
            old(self)@.wf(),
        ensures
            final(self)@.wf(),
            final(self)@.contacts == old(self)@.contacts,
            r ==> exists|i: int|
                {
                    &&& 0 <= i < old(self)@.citizens.len()
                    &&& (#[trigger] old(self)@.citizens[i]).id == q@.id
                    &&& final(self)@.citizens == old(self)@.citizens.update(i, q@)
                },
            !r ==> !has_citizen_number(old(self)@.citizens, q@.id) && final(self)@ == old(
                self,
            )@,
    {
        let mut i: usize = 0;
        while i < self.citizens.len()
            invariant
                i <= self.citizens.len(),
                self@ == old(self)@,
                old(self)@.wf(),
                forall|j: int| 0 <= j < i ==> (#[trigger] self@.citizens[j]).id != q@.id,
            decreases self.citizens.len() - i,
        {
            if self.citizens[i].id == q.id {
                let replacement = q.clone();
                self.citizens[i] = replacement;
                proof {
                    assert(self@.citizens =~= old(self)@.citizens.update(i as int, q@));
                    assert((i as int) < old(self)@.citizens.len() && old(
                        self,
                    )@.citizens[i as int].id == q@.id && self@.citizens == old(
                        self,
                    )@.citizens.update(i as int, q@));
                    assert forall|a: int, b: int|
                        0 <= a < b < self@.citizens.len() implies (
                    #[trigger] self@.citizens[a]).id != (#[trigger] self@.citizens[b]).id by {
                        assert(old(self)@.citizens[a].id != old(self)@.citizens[b].id);
                    }
                }
                return true;
            }
            i = i + 1;
        }
        false
    }

    /// Everyone the owner lists as a contact, in table order.
    pub fn contacts_of(&self, owner: u32) -> (r: Vec<u32>)
        ensures
            r@ == spec_contacts_of(self@.contacts, owner),
    {
        let mut out: Vec<u32> = Vec::new();
        let mut i: usize = 0;
        assert(self@.contacts.skip(0) =~= self@.contacts);
        assert(out@ + spec_contacts_of(self@.contacts, owner) =~= spec_contacts_of(
            self@.contacts,
            owner,
        ));
        while i < self.contacts.len()
            invariant
                i <= self.contacts.len(),
                spec_contacts_of(self@.contacts, owner) == out@ + spec_contacts_of(
                    self@.contacts.skip(i as int),
                    owner,
                ),
            decreases self.contacts.len() - i,
        {
            assert(self@.contacts.skip(i as int)[0] == self@.contacts[i as int]);
            assert(self@.contacts.skip(i as int).skip(1) =~= self@.contacts.skip(i as int + 1));
            let pair = self.contacts[i];
            if pair.0 == owner {
                let ghost pre = out@;
                out.push(pair.1);
                proof {
                    assert(spec_contacts_of(self@.contacts.skip(i as int), owner) == seq![
                        pair.1,
                    ] + spec_contacts_of(self@.contacts.skip(i as int + 1), owner));
                    assert(pre + (seq![pair.1] + spec_contacts_of(
                        self@.contacts.skip(i as int + 1),
                        owner,
                    )) =~= out@ + spec_contacts_of(self@.contacts.skip(i as int + 1), owner));
                }
            }
            i = i + 1;
        }
        assert(self@.contacts.skip(i as int) =~= Seq::<(u32, u32)>::empty());
        assert(out@ + Seq::<u32>::empty() =~= out@);
        out
    }
}

/// The earliest record with the given id.
pub open spec fn spec_citizen_by_number(s: Seq<CitizenV>, id: u32) -> Option<CitizenV>
    decreases s.len(),
{
    if s.len() == 0 {
        None
    } else if s[0].id == id {
        Some(s[0])
    } else {
        spec_citizen_by_number(s.skip(1), id)
    }
}

/// The earliest record with the given name.
pub open spec fn spec_citizen_by_name(s: Seq<CitizenV>, name: Seq<u8>) -> Option<CitizenV>
    decreases s.len(),
{
    if s.len() == 0 {
        None
    } else if s[0].name == name {
        Some(s[0])
    } else {
        spec_citizen_by_name(s.skip(1), name)
    }
}

/// The record with the smallest id strictly above `id`; the earliest such
/// record where ids repeat.
pub open spec fn spec_next_citizen(s: Seq<CitizenV>, id: u32) -> Option<CitizenV>
    decreases s.len(),
{
    if s.len() == 0 {
        None
    } else {
        let rest = spec_next_citizen(s.skip(1), id);
        if s[0].id > id {
            match rest {
                None => Some(s[0]),
                Some(r) => if s[0].id <= r.id {
                    Some(s[0])
                } else {
                    Some(r)
                },
            }
        } else {
            rest
        }
    }
}

/// The record with the largest id strictly below `id`; the earliest such
/// record where ids repeat.
pub open spec fn spec_prev_citizen(s: Seq<CitizenV>, id: u32) -> Option<CitizenV>
    decreases s.len(),
{
    if s.len() == 0 {
        None
    } else {
        let rest = spec_prev_citizen(s.skip(1), id);
        if s[0].id < id {
            match rest {
                None => Some(s[0]),
                Some(r) => if s[0].id >= r.id {
                    Some(s[0])
                } else {
                    Some(r)
                },
            }
        } else {
            rest
        }
    }
}

/// What `spec_next_citizen` yields is a record of the table with the
/// smallest id above the bound; `None` only when no id lies above it.
pub proof fn lemma_next_citizen_characterization(s: Seq<CitizenV>, id: u32)
    ensures
        match spec_next_citizen(s, id) {
            Some(c) => {
                &&& exists|i: int| 0 <= i < s.len() && (#[trigger] s[i]) == c
                &&& c.id > id
                &&& forall|j: int|
                    0 <= j < s.len() && (#[trigger] s[j]).id > id ==> c.id <= s[j].id
            },
            None => forall|j: int| 0 <= j < s.len() ==> !((#[trigger] s[j]).id > id),
        },
    decreases s.len(),
{
    if s.len() > 0 {
        lemma_next_citizen_characterization(s.skip(1), id);
        assert(forall|j: int| 0 <= j < s.skip(1).len() ==> (#[trigger] s.skip(1)[j]) == s[j + 1]);
        assert(forall|j: int| 1 <= j < s.len() ==> (#[trigger] s[j]) == s.skip(1)[j - 1]);
        match spec_next_citizen(s, id) {
            Some(c) => {
                if s[0].id > id {
                    match spec_next_citizen(s.skip(1), id) {
                        None => {
                            assert(s[0] == c);
                        }
                        Some(r) => {
                            if s[0].id <= r.id {
                                assert(s[0] == c);
                            } else {
                                let i = choose|i: int|
                                    0 <= i < s.skip(1).len() && (#[trigger] s.skip(1)[i]) == r;
                                assert(s[i + 1] == r);
                            }
                        }
                    }
                } else {
                    let r = spec_next_citizen(s.skip(1), id)->Some_0;
                    let i = choose|i: int|
                        0 <= i < s.skip(1).len() && (#[trigger] s.skip(1)[i]) == r;
                    assert(s[i + 1] == r);
                }
            }
            None => {}
        }
    }
}

/// What `spec_prev_citizen` yields is a record of the table with the
/// largest id below the bound; `None` only when no id lies below it.
pub proof fn lemma_prev_citizen_characterization(s: Seq<CitizenV>, id: u32)
    ensures
        match spec_prev_citizen(s, id) {
            Some(c) => {
                &&& exists|i: int| 0 <= i < s.len() && (#[trigger] s[i]) == c
                &&& c.id < id
                &&& forall|j: int|
                    0 <= j < s.len() && (#[trigger] s[j]).id < id ==> c.id >= s[j].id
            },
            None => forall|j: int| 0 <= j < s.len() ==> !((#[trigger] s[j]).id < id),
        },
    decreases s.len(),
{
    if s.len() > 0 {
        lemma_prev_citizen_characterization(s.skip(1), id);
        assert(forall|j: int| 0 <= j < s.skip(1).len() ==> (#[trigger] s.skip(1)[j]) == s[j + 1]);
        assert(forall|j: int| 1 <= j < s.len() ==> (#[trigger] s[j]) == s.skip(1)[j - 1]);
        match spec_prev_citizen(s, id) {
            Some(c) => {
                if s[0].id < id {
                    match spec_prev_citizen(s.skip(1), id) {
                        None => {
                            assert(s[0] == c);
                        }
                        Some(r) => {
                            if s[0].id >= r.id {
                                assert(s[0] == c);
                            } else {
                                let i = choose|i: int|
                                    0 <= i < s.skip(1).len() && (#[trigger] s.skip(1)[i]) == r;
                                assert(s[i + 1] == r);
                            }
                        }
                    }
                } else {
                    let r = spec_prev_citizen(s.skip(1), id)->Some_0;
                    let i = choose|i: int|
                        0 <= i < s.skip(1).len() && (#[trigger] s.skip(1)[i]) == r;
                    assert(s[i + 1] == r);
                }
            }
            None => {}
        }
    }
}

/// The others every pair owned by `owner` names, in order.
pub open spec fn spec_contacts_of(pairs: Seq<(u32, u32)>, owner: u32) -> Seq<u32>
    decreases pairs.len(),
{
    if pairs.len() == 0 {
        Seq::<u32>::empty()
    } else if pairs[0].0 == owner {
        seq![pairs[0].1] + spec_contacts_of(pairs.skip(1), owner)
    } else {
        spec_contacts_of(pairs.skip(1), owner)
    }
}

} // verus!
