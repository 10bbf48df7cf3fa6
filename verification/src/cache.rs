use vstd::prelude::*;

verus! {

/// One guessed field of a packet type.
///
/// Scripts assert these into the shared cache as they learn the shape of a
/// packet; repeated calls accumulate fields under the guessed message name.
#[derive(Debug)]
pub struct MessageField {
    /// The name of the field.
    pub field_name: String,
    /// The type of the field.
    pub field_type: String,
    /// The ID of the field.
    pub field_id: u16,
}

/// The mathematical model of a `MessageField`: both texts as character
/// sequences, plus the field id.
#[verifier::ext_equal]
pub ghost struct FieldModel {
    pub name: Seq<char>,
    pub ty: Seq<char>,
    pub id: u16,
}

impl View for MessageField {
    type V = FieldModel;

    open spec fn view(&self) -> FieldModel {
        FieldModel { name: self.field_name@, ty: self.field_type@, id: self.field_id }
    }
}

impl Clone for MessageField {
    fn clone(&self) -> (r: Self)
        ensures
            r@ == self@,
    {
        MessageField {
            field_name: self.field_name.clone(),
            field_type: self.field_type.clone(),
            field_id: self.field_id,
        }
    }
}

/// The mathematical model of the knowledge cache.
///
/// `names` and `ids` are the two index-aligned append-only sequences of first
/// sightings; `messages` maps a guessed message name to the fields accumulated
/// under that name, in call order.
#[verifier::ext_equal]
pub ghost struct CacheModel {
    pub names: Seq<Seq<char>>,
    pub ids: Seq<u16>,
    pub messages: Map<Seq<char>, Seq<FieldModel>>,
}

/// The id-to-name direction of the mapping, derived from the two aligned
/// sequences. First write wins: a later pair with an already-seen id is
/// ignored.
pub open spec fn id_map_of(names: Seq<Seq<char>>, ids: Seq<u16>) -> Map<u16, Seq<char>>
    decreases ids.len(),
{
    if ids.len() == 0 || names.len() == 0 {
        Map::empty()
    } else {
        let rest = id_map_of(names.drop_last(), ids.drop_last());
        if rest.dom().contains(ids.last()) {
            rest
        } else {
            rest.insert(ids.last(), names.last())
        }
    }
}

/// The name-to-id direction of the mapping, derived from the two aligned
/// sequences. A later pair overwrites an earlier one with the same name.
pub open spec fn name_map_of(names: Seq<Seq<char>>, ids: Seq<u16>) -> Map<Seq<char>, u16>
    decreases ids.len(),
{
    if ids.len() == 0 || names.len() == 0 {
        Map::empty()
    } else {
        name_map_of(names.drop_last(), ids.drop_last()).insert(names.last(), ids.last())
    }
}

impl CacheModel {
    /// Validity of the model: the two sighting sequences are aligned, and no
    /// id is recorded twice.
    pub open spec fn wf(self) -> bool {
        &&& self.names.len() == self.ids.len()
        &&& forall|i: int, j: int|
            0 <= i < j < self.ids.len() ==> self.ids[i] != self.ids[j]
    }

    /// The id-to-name mapping this cache has accumulated.
    pub open spec fn id_map(self) -> Map<u16, Seq<char>> {
        id_map_of(self.names, self.ids)
    }

    /// The name-to-id mapping this cache has accumulated.
    pub open spec fn name_map(self) -> Map<Seq<char>, u16> {
        name_map_of(self.names, self.ids)
    }

    /// The fields recorded so far under `name`; empty if the name has none.
    pub open spec fn fields_of(self, name: Seq<char>) -> Seq<FieldModel> {
        if self.messages.dom().contains(name) {
            self.messages[name]
        } else {
            Seq::empty()
        }
    }

    /// The model after one `update` call: the pair of sequences grows exactly
    /// when the id is new, and the field is appended under the literal name
    /// regardless.
    pub open spec fn updated(self, name: Seq<char>, id: u16, field: FieldModel) -> CacheModel {
        CacheModel {
            names: if self.ids.contains(id) {
                self.names
            } else {
                self.names.push(name)
            },
            ids: if self.ids.contains(id) {
                self.ids
            } else {
                self.ids.push(id)
            },
            messages: self.messages.insert(name, self.fields_of(name).push(field)),
        }
    }
}

/// The cumulative, append-only knowledge base of packet id, name, and field
/// guesses. It only ever grows: there is no removal operation.
#[derive(Debug)]
pub struct Cache {
    /// Names of first sightings, in call order, aligned with `known_ids`.
    known_names: Vec<String>,
    /// Ids of first sightings, in call order, aligned with `known_names`.
    known_ids: Vec<u16>,
    /// Keys of the accumulated per-name field lists.
    message_names: Vec<String>,
    /// The field list for each key in `message_names`, index-aligned.
    message_fields: Vec<Vec<MessageField>>,
}

/// The view of one field list.
pub open spec fn fields_view(fields: Seq<MessageField>) -> Seq<FieldModel> {
    fields.map(|i: int, f: MessageField| f@)
}

/// The name-to-fields map represented by the two aligned vectors.
spec fn messages_map(names: Seq<String>, fields: Seq<Vec<MessageField>>) -> Map<
    Seq<char>,
    Seq<FieldModel>,
>
    decreases names.len(),
{
    if names.len() == 0 || fields.len() == 0 {
        Map::empty()
    } else {
        messages_map(names.drop_last(), fields.drop_last()).insert(
            names.last()@,
            fields_view(fields.last()@),
        )
    }
}

impl View for Cache {
    type V = CacheModel;

    closed spec fn view(&self) -> CacheModel {
        CacheModel {
            names: self.known_names@.map(|i: int, s: String| s@),
            ids: self.known_ids@,
            messages: messages_map(self.message_names@, self.message_fields@),
        }
    }
}

impl Cache {
    /// Structural validity: the model is valid and the message store keys are
    /// pairwise distinct.
    pub closed spec fn wf(self) -> bool {
        &&& self@.wf()
        &&& self.message_names@.len() == self.message_fields@.len()
        &&& forall|i: int, j: int|
            0 <= i < j < self.message_names@.len()
                ==> self.message_names@[i]@ != self.message_names@[j]@
    }

    /// Creates an empty cache: nothing is known yet.
    pub fn new() -> (r: Cache)
        ensures
            r.wf(),
            r@.names == Seq::<Seq<char>>::empty(),
            r@.ids == Seq::<u16>::empty(),
            r@.messages == Map::<Seq<char>, Seq<FieldModel>>::empty(),
    {
        let r = Cache {
            known_names: Vec::new(),
            known_ids: Vec::new(),
            message_names: Vec::new(),
            message_fields: Vec::new(),
        };
        proof {
            assert(r@.names =~= Seq::<Seq<char>>::empty());
        }
        r
    }

    /// Simple check to see if the cache knows the given ID.
    pub fn id_known(&self, id: u16) -> (r: bool)
        ensures
            r == self@.ids.contains(id),
    {
        let mut i: usize = 0;
        while i < self.known_ids.len()
            invariant
                i <= self.known_ids@.len(),
                forall|j: int| 0 <= j < i ==> self.known_ids@[j] != id,
            decreases self.known_ids@.len() - i,
        {
            if self.known_ids[i] == id {
                return true;
            }
            i = i + 1;
        }
        false
    }
}

/// A key is in the represented map exactly when one of the vector's entries
/// carries it.
proof fn lemma_messages_map_contains(
    names: Seq<String>,
    fields: Seq<Vec<MessageField>>,
    key: Seq<char>,
)
    requires
        names.len() == fields.len(),
    ensures
        messages_map(names, fields).dom().contains(key) <==> exists|i: int|
            0 <= i < names.len() && names[i]@ == key,
    decreases names.len(),
{
    if names.len() > 0 {
        lemma_messages_map_contains(names.drop_last(), fields.drop_last(), key);
        if names.last()@ == key {
            assert(names[names.len() - 1]@ == key);
        } else if messages_map(names, fields).dom().contains(key) {
            let i = choose|i: int| 0 <= i < names.len() - 1 && names.drop_last()[i]@ == key;
            assert(names[i]@ == key);
        } else if exists|i: int| 0 <= i < names.len() && names[i]@ == key {
            let i = choose|i: int| 0 <= i < names.len() && names[i]@ == key;
            assert(i < names.len() - 1);
            assert(names.drop_last()[i]@ == key);
        }
    }
}

/// With pairwise-distinct keys, the represented map sends each entry's key to
/// that entry's field list.
proof fn lemma_messages_map_index(names: Seq<String>, fields: Seq<Vec<MessageField>>, i: int)
    requires
        names.len() == fields.len(),
        0 <= i < names.len(),
        forall|p: int, q: int| 0 <= p < q < names.len() ==> names[p]@ != names[q]@,
    ensures
        messages_map(names, fields).dom().contains(names[i]@),
        messages_map(names, fields)[names[i]@] == fields_view(fields[i]@),
    decreases names.len(),
{
    if i < names.len() - 1 {
        assert(names.drop_last()[i] == names[i]);
        lemma_messages_map_index(names.drop_last(), fields.drop_last(), i);
        assert(names.last()@ != names[i]@);
    }
}

/// Replacing the field list of one entry replaces exactly that key's value in
/// the represented map, provided the keys are pairwise distinct.
proof fn lemma_messages_map_update(
    names: Seq<String>,
    fields: Seq<Vec<MessageField>>,
    i: int,
    nf: Vec<MessageField>,
)
    requires
        names.len() == fields.len(),
        0 <= i < names.len(),
        forall|p: int, q: int| 0 <= p < q < names.len() ==> names[p]@ != names[q]@,
    ensures
        messages_map(names, fields.update(i, nf)) =~= messages_map(names, fields).insert(
            names[i]@,
            fields_view(nf@),
        ),
    decreases names.len(),
{
    let upd = fields.update(i, nf);
    if i == names.len() - 1 {
        assert(upd.drop_last() =~= fields.drop_last());
        assert(upd.last() == nf);
    } else {
        assert(upd.drop_last() =~= fields.drop_last().update(i, nf));
        assert(upd.last() == fields.last());
        lemma_messages_map_update(names.drop_last(), fields.drop_last(), i, nf);
        assert(names.drop_last()[i] == names[i]);
        assert(names.last()@ != names[i]@);
    }
}

impl Cache {
    /// Simple check to see if the cache knows the given name.
    pub fn name_known(&self, name: &str) -> (r: bool)
        ensures
            r == self@.names.contains(name@),
    {
        let target: String = name.to_owned();
        let mut i: usize = 0;
        while i < self.known_names.len()
            invariant
                i <= self.known_names@.len(),
                target@ == name@,
                forall|j: int| 0 <= j < i ==> self.known_names@[j]@ != name@,
            decreases self.known_names@.len() - i,
        {
            if self.known_names[i] == target {
                proof {
                    assert(self@.names[i as int] == name@);
                }
                return true;
            }
            i = i + 1;
        }
        proof {
            if self@.names.contains(name@) {
                let j = choose|j: int| 0 <= j < self@.names.len() && self@.names[j] == name@;
                assert(self.known_names@[j]@ == name@);
            }
        }
        false
    }

    /// The position of `name` in the message store, if the store has it.
    fn find_entry(&self, name: &String) -> (r: Option<usize>)
        ensures
            match r {
                Some(i) => i < self.message_names@.len() && self.message_names@[i as int]@
                    == name@,
                None => forall|j: int|
                    0 <= j < self.message_names@.len() ==> self.message_names@[j]@ != name@,
            },
    {
        let mut i: usize = 0;
        while i < self.message_names.len()
            invariant
                i <= self.message_names@.len(),
                forall|j: int| 0 <= j < i ==> self.message_names@[j]@ != name@,
            decreases self.message_names@.len() - i,
        {
            if self.message_names[i] == *name {
                return Some(i);
            }
            i = i + 1;
        }
        None
    }

    /// Updates the cache with the guessed name, ID, and field data.
    ///
    /// If the id has not been sighted before, the name/id pair is appended to
    /// the two aligned sequences, establishing both map directions; a later
    /// call with the same id changes neither (first write wins). The field is
    /// appended under the literal `name` argument in every case.
    pub fn update(&mut self, message_name: String, packet_id: u16, field: MessageField)
        requires
            old(self).wf(),
        ensures
            final(self).wf(),
            final(self)@.wf(),
            final(self)@ == old(self)@.updated(message_name@, packet_id, field@),
    {
        let ghost pre = self@;
        if !self.id_known(packet_id) {
            self.known_names.push(message_name.clone());
            self.known_ids.push(packet_id);
            proof {
                assert(self@.names =~= pre.names.push(message_name@));
            }
        }
        match self.find_entry(&message_name) {
            Some(i) => {
                let ghost old_fseq = self.message_fields@;
                proof {
                    lemma_messages_map_index(self.message_names@, old_fseq, i as int);
                }
                self.message_fields[i].push(field);
                proof {
                    let new_entry = self.message_fields@[i as int];
                    assert(self.message_fields@ == old_fseq.update(i as int, new_entry));
                    lemma_messages_map_update(self.message_names@, old_fseq, i as int, new_entry);
                    assert(fields_view(new_entry@) =~= fields_view(old_fseq[i as int]@).push(
                        field@,
                    ));
                }
            },
            None => {
                proof {
                    lemma_messages_map_contains(
                        self.message_names@,
                        self.message_fields@,
                        message_name@,
                    );
                }
                let ghost old_names = self.message_names@;
                let ghost old_fields = self.message_fields@;
                let mut first: Vec<MessageField> = Vec::new();
                first.push(field);
                self.message_fields.push(first);
                self.message_names.push(message_name);
                proof {
                    assert(self.message_names@.drop_last() =~= old_names);
                    assert(self.message_fields@.drop_last() =~= old_fields);
                    assert(fields_view(self.message_fields@.last()@) =~= Seq::<
                        FieldModel,
                    >::empty().push(field@));
                }
            },
        }
        proof {
            assert(self@ =~~= pre.updated(message_name@, packet_id, field@));
        }
    }
}

/// An id is in the id-to-name map exactly when one of the aligned pairs
/// carries it.
pub proof fn lemma_id_map_dom(names: Seq<Seq<char>>, ids: Seq<u16>, id: u16)
    requires
        names.len() == ids.len(),
    ensures
        id_map_of(names, ids).dom().contains(id) <==> ids.contains(id),
    decreases ids.len(),
{
    if ids.len() > 0 {
        lemma_id_map_dom(names.drop_last(), ids.drop_last(), id);
        if ids.last() == id {
            assert(ids[ids.len() - 1] == id);
        } else if ids.drop_last().contains(id) {
            let i = choose|i: int| 0 <= i < ids.len() - 1 && ids.drop_last()[i] == id;
            assert(ids[i] == id);
        } else if ids.contains(id) {
            let i = choose|i: int| 0 <= i < ids.len() && ids[i] == id;
            assert(i < ids.len() - 1);
            assert(ids.drop_last()[i] == id);
        }
    }
}

/// With pairwise-distinct ids, the id-to-name map sends each recorded id to
/// the name first written beside it.
pub proof fn lemma_id_map_index(names: Seq<Seq<char>>, ids: Seq<u16>, i: int)
    requires
        names.len() == ids.len(),
        0 <= i < ids.len(),
        forall|p: int, q: int| 0 <= p < q < ids.len() ==> ids[p] != ids[q],
    ensures
        id_map_of(names, ids).dom().contains(ids[i]),
        id_map_of(names, ids)[ids[i]] == names[i],
    decreases ids.len(),
{
    if i == ids.len() - 1 {
        lemma_id_map_dom(names.drop_last(), ids.drop_last(), ids.last());
        assert(!ids.drop_last().contains(ids.last())) by {
            if ids.drop_last().contains(ids.last()) {
                let j = choose|j: int| 0 <= j < ids.len() - 1 && ids.drop_last()[j] == ids.last();
                assert(ids[j] == ids[ids.len() - 1]);
            }
        }
    } else {
        assert(ids.drop_last()[i] == ids[i]);
        lemma_id_map_index(names.drop_last(), ids.drop_last(), i);
        assert(ids.last() != ids[i]);
    }
}

/// A name is in the name-to-id map exactly when one of the aligned pairs
/// carries it.
pub proof fn lemma_name_map_dom(names: Seq<Seq<char>>, ids: Seq<u16>, name: Seq<char>)
    requires
        names.len() == ids.len(),
    ensures
        name_map_of(names, ids).dom().contains(name) <==> names.contains(name),
    decreases ids.len(),
{
    if ids.len() > 0 {
        lemma_name_map_dom(names.drop_last(), ids.drop_last(), name);
        if names.last() == name {
            assert(names[names.len() - 1] == name);
        } else if names.drop_last().contains(name) {
            let i = choose|i: int| 0 <= i < names.len() - 1 && names.drop_last()[i] == name;
            assert(names[i] == name);
        } else if names.contains(name) {
            let i = choose|i: int| 0 <= i < names.len() && names[i] == name;
            assert(i < names.len() - 1);
            assert(names.drop_last()[i] == name);
        }
    }
}

/// The name-to-id map sends each recorded name to the id written beside its
/// last occurrence.
pub proof fn lemma_name_map_index(names: Seq<Seq<char>>, ids: Seq<u16>, i: int)
    requires
        names.len() == ids.len(),
        0 <= i < names.len(),
        forall|j: int| i < j < names.len() ==> names[j] != names[i],
    ensures
        name_map_of(names, ids).dom().contains(names[i]),
        name_map_of(names, ids)[names[i]] == ids[i],
    decreases ids.len(),
{
    if i < names.len() - 1 {
        assert(names.drop_last()[i] == names[i]);
        lemma_name_map_index(names.drop_last(), ids.drop_last(), i);
        assert(names.last() != names[i]);
    }
}

impl Cache {
    /// The name this cache maps `id` to, if the id has been sighted.
    pub fn id_map_get(&self, id: u16) -> (r: Option<&String>)
        requires
            self.wf(),
        ensures
            match r {
                Some(name) => self@.id_map().dom().contains(id) && name@ == self@.id_map()[id],
                None => !self@.id_map().dom().contains(id),
            },
    {
        proof {
            lemma_id_map_dom(self@.names, self@.ids, id);
        }
        let mut i: usize = 0;
        while i < self.known_ids.len()
            invariant
                self.wf(),
                i <= self.known_ids@.len(),
                forall|j: int| 0 <= j < i ==> self.known_ids@[j] != id,
            decreases self.known_ids@.len() - i,
        {
            if self.known_ids[i] == id {
                proof {
                    lemma_id_map_index(self@.names, self@.ids, i as int);
                }
                return Some(&self.known_names[i]);
            }
            i = i + 1;
        }
        None
    }

    /// The id this cache maps `name` to, if the name has been sighted. When a
    /// name was written beside more than one id, the binding is the one
    /// written last.
    pub fn name_map_get(&self, name: &str) -> (r: Option<u16>)
        requires
            self.wf(),
        ensures
            match r {
                Some(id) => self@.name_map().dom().contains(name@) && id
                    == self@.name_map()[name@],
                None => !self@.name_map().dom().contains(name@),
            },
    {
        proof {
            lemma_name_map_dom(self@.names, self@.ids, name@);
        }
        let target: String = name.to_owned();
        let mut i: usize = self.known_names.len();
        while i > 0
            invariant
                self.wf(),
                i <= self.known_names@.len(),
                target@ == name@,
                forall|j: int| i <= j < self.known_names@.len() ==> self.known_names@[j]@ != name@,
            decreases i,
        {
            i = i - 1;
            if self.known_names[i] == target {
                proof {
                    lemma_name_map_index(self@.names, self@.ids, i as int);
                }
                return Some(self.known_ids[i]);
            }
        }
        proof {
            if self@.names.contains(name@) {
                let j = choose|j: int| 0 <= j < self@.names.len() && self@.names[j] == name@;
                assert(self.known_names@[j]@ == name@);
            }
        }
        None
    }
}

impl Cache {
    /// The names of first sightings, in call order, aligned with the ids.
    pub fn known_names(&self) -> (r: &Vec<String>)
        ensures
            r@.len() == self@.names.len(),
            forall|i: int| 0 <= i < r@.len() ==> r@[i]@ == self@.names[i],
    {
        &self.known_names
    }

    /// The ids of first sightings, in call order, aligned with the names.
    pub fn known_ids(&self) -> (r: &Vec<u16>)
        ensures
            r@ == self@.ids,
    {
        &self.known_ids
    }

    /// The fields accumulated so far under `name`, if any call recorded one.
    pub fn message_fields(&self, name: &str) -> (r: Option<&Vec<MessageField>>)
        requires
            self.wf(),
        ensures
            match r {
                Some(fields) => self@.messages.dom().contains(name@) && fields_view(fields@)
                    == self@.messages[name@],
                None => !self@.messages.dom().contains(name@),
            },
    {
        proof {
            lemma_messages_map_contains(self.message_names@, self.message_fields@, name@);
        }
        match self.find_entry(&name.to_owned()) {
            Some(i) => {
                proof {
                    lemma_messages_map_index(self.message_names@, self.message_fields@, i as int);
                }
                Some(&self.message_fields[i])
            },
            None => None,
        }
    }
}

/// Law: an id is never known before some `update` names it; it is known after
/// any `update` naming it; and once known it stays known through every later
/// update, whatever that one names.
pub proof fn lemma_id_known_monotone(
    c: CacheModel,
    name: Seq<char>,
    id: u16,
    field: FieldModel,
    q: u16,
)
    ensures
        c.updated(name, id, field).ids.contains(id),
        c.ids.contains(q) ==> c.updated(name, id, field).ids.contains(q),
        !c.ids.contains(q) && q != id ==> !c.updated(name, id, field).ids.contains(q),
{
    let c2 = c.updated(name, id, field);
    if c.ids.contains(id) {
    } else {
        assert(c2.ids[c.ids.len() as int] == id);
        assert(c2.ids.contains(id));
    }
    if c.ids.contains(q) {
        let i = choose|i: int| 0 <= i < c.ids.len() && c.ids[i] == q;
        assert(c2.ids[i] == q);
        assert(c2.ids.contains(q));
    }
    if !c.ids.contains(q) && q != id && c2.ids.contains(q) {
        let i = choose|i: int| 0 <= i < c2.ids.len() && c2.ids[i] == q;
        assert(i < c.ids.len() ==> c.ids[i] == q);
    }
}

/// The cache after a whole sequence of `update` calls, each one a
/// (name, id, field) triple, applied in order.
pub open spec fn applied(c: CacheModel, calls: Seq<(Seq<char>, u16, FieldModel)>) -> CacheModel
    decreases calls.len(),
{
    if calls.len() == 0 {
        c
    } else {
        applied(c, calls.drop_last()).updated(calls.last().0, calls.last().1, calls.last().2)
    }
}

/// Law: an id that no call of a history ever names stays unknown through the
/// whole history.
pub proof fn lemma_id_never_named_stays_unknown(
    c: CacheModel,
    calls: Seq<(Seq<char>, u16, FieldModel)>,
    q: u16,
)
    requires
        !c.ids.contains(q),
        forall|i: int| 0 <= i < calls.len() ==> (#[trigger] calls[i]).1 != q,
    ensures
        !applied(c, calls).ids.contains(q),
    decreases calls.len(),
{
    if calls.len() > 0 {
        lemma_id_never_named_stays_unknown(c, calls.drop_last(), q);
        lemma_id_known_monotone(
            applied(c, calls.drop_last()),
            calls.last().0,
            calls.last().1,
            calls.last().2,
            q,
        );
    }
}

/// Law: an id once known stays known through any further history; in
/// particular the single call that names a fresh id makes it known for good.
pub proof fn lemma_id_known_stays_known(
    c: CacheModel,
    calls: Seq<(Seq<char>, u16, FieldModel)>,
    q: u16,
)
    requires
        c.ids.contains(q),
    ensures
        applied(c, calls).ids.contains(q),
    decreases calls.len(),
{
    if calls.len() > 0 {
        lemma_id_known_stays_known(c, calls.drop_last(), q);
        lemma_id_known_monotone(
            applied(c, calls.drop_last()),
            calls.last().0,
            calls.last().1,
            calls.last().2,
            q,
        );
    }
}

/// Law: updating twice with the same name and id binds the id exactly once
/// (no duplicate sighting), maps the id to that name, and accumulates both
/// fields under the name in call order.
pub proof fn lemma_update_same_name_twice(
    c: CacheModel,
    name: Seq<char>,
    id: u16,
    f1: FieldModel,
    f2: FieldModel,
)
    requires
        c.wf(),
        !c.ids.contains(id),
    ensures
        ({
            let c2 = c.updated(name, id, f1).updated(name, id, f2);
            &&& c2.names == c.names.push(name)
            &&& c2.ids == c.ids.push(id)
            &&& c2.wf()
            &&& c2.id_map().dom().contains(id)
            &&& c2.id_map()[id] == name
            &&& c2.fields_of(name) == c.fields_of(name).push(f1).push(f2)
        }),
{
    let c1 = c.updated(name, id, f1);
    assert(c1.ids[c.ids.len() as int] == id);
    assert(c1.ids.contains(id));
    let c2 = c1.updated(name, id, f2);
    assert(c2.wf()) by {
        lemma_updated_wf(c, name, id, f1);
    }
    lemma_id_map_index(c2.names, c2.ids, c.ids.len() as int);
}

/// Law: once an id is bound to a name, a later update naming the same id
/// under a different name changes neither map direction entry for the id (the
/// first write wins), while the field named by the later call still lands
/// under the literal later name.
pub proof fn lemma_first_write_wins(
    c: CacheModel,
    first_name: Seq<char>,
    second_name: Seq<char>,
    id: u16,
    f1: FieldModel,
    f2: FieldModel,
)
    requires
        c.wf(),
        !c.ids.contains(id),
        first_name != second_name,
    ensures
        ({
            let c2 = c.updated(first_name, id, f1).updated(second_name, id, f2);
            &&& c2.names == c.names.push(first_name)
            &&& c2.ids == c.ids.push(id)
            &&& c2.id_map().dom().contains(id)
            &&& c2.id_map()[id] == first_name
            &&& c2.fields_of(second_name) == c.fields_of(second_name).push(f2)
            &&& c2.fields_of(first_name) == c.fields_of(first_name).push(f1)
        }),
{
    let c1 = c.updated(first_name, id, f1);
    assert(c1.ids[c.ids.len() as int] == id);
    assert(c1.ids.contains(id));
    let c2 = c1.updated(second_name, id, f2);
    assert(c2.wf()) by {
        lemma_updated_wf(c, first_name, id, f1);
    }
    lemma_id_map_index(c2.names, c2.ids, c.ids.len() as int);
}

/// Law: one `update` with a fresh id extends both map directions by exactly
/// that pair; one with an already-known id leaves both directions untouched,
/// whatever name it carries.
pub proof fn lemma_updated_maps(c: CacheModel, name: Seq<char>, id: u16, field: FieldModel)
    requires
        c.wf(),
    ensures
        !c.ids.contains(id) ==> c.updated(name, id, field).id_map() =~= c.id_map().insert(
            id,
            name,
        ),
        !c.ids.contains(id) ==> c.updated(name, id, field).name_map() =~= c.name_map().insert(
            name,
            id,
        ),
        c.ids.contains(id) ==> c.updated(name, id, field).id_map() == c.id_map(),
        c.ids.contains(id) ==> c.updated(name, id, field).name_map() == c.name_map(),
{
    if !c.ids.contains(id) {
        let c2 = c.updated(name, id, field);
        assert(c2.names.drop_last() =~= c.names);
        assert(c2.ids.drop_last() =~= c.ids);
        lemma_id_map_dom(c.names, c.ids, id);
    }
}

/// One `update` preserves validity of the model.
pub proof fn lemma_updated_wf(c: CacheModel, name: Seq<char>, id: u16, field: FieldModel)
    requires
        c.wf(),
    ensures
        c.updated(name, id, field).wf(),
{
    let c2 = c.updated(name, id, field);
    if !c.ids.contains(id) {
        assert forall|i: int, j: int| 0 <= i < j < c2.ids.len() implies c2.ids[i] != c2.ids[j] by {
            if j == c2.ids.len() - 1 {
                assert(c2.ids[j] == id);
                if c.ids[i] == id {
                    assert(c.ids.contains(id));
                }
            }
        }
    }
}

/// Clones a vector of texts, keeping every element's view.
fn clone_text_vec(v: &Vec<String>) -> (r: Vec<String>)
    ensures
        r@.len() == v@.len(),
        forall|i: int| 0 <= i < v@.len() ==> r@[i]@ == v@[i]@,
{
    let mut r: Vec<String> = Vec::new();
    let mut i: usize = 0;
    while i < v.len()
        invariant
            i <= v@.len(),
            r@.len() == i,
            forall|j: int| 0 <= j < i ==> r@[j]@ == v@[j]@,
        decreases v@.len() - i,
    {
        r.push(v[i].clone());
        i = i + 1;
    }
    r
}

/// Clones a vector of ids, keeping the sequence.
fn clone_id_vec(v: &Vec<u16>) -> (r: Vec<u16>)
    ensures
        r@ == v@,
{
    let mut r: Vec<u16> = Vec::new();
    let mut i: usize = 0;
    while i < v.len()
        invariant
            i <= v@.len(),
            r@ == v@.subrange(0, i as int),
        decreases v@.len() - i,
    {
        r.push(v[i]);
        proof {
            assert(r@ =~= v@.subrange(0, i + 1 as int));
        }
        i = i + 1;
    }
    proof {
        assert(r@ =~= v@);
    }
    r
}

/// Clones one field list, keeping its view.
fn clone_field_vec(v: &Vec<MessageField>) -> (r: Vec<MessageField>)
    ensures
        fields_view(r@) == fields_view(v@),
{
    let mut r: Vec<MessageField> = Vec::new();
    let mut i: usize = 0;
    while i < v.len()
        invariant
            i <= v@.len(),
            r@.len() == i,
            forall|j: int| 0 <= j < i ==> r@[j]@ == v@[j]@,
        decreases v@.len() - i,
    {
        r.push(v[i].clone());
        i = i + 1;
    }
    proof {
        assert(fields_view(r@) =~= fields_view(v@));
    }
    r
}

/// Clones the table of field lists, keeping every list's view.
fn clone_fields_table(v: &Vec<Vec<MessageField>>) -> (r: Vec<Vec<MessageField>>)
    ensures
        r@.len() == v@.len(),
        forall|i: int| 0 <= i < v@.len() ==> fields_view(r@[i]@) == fields_view(v@[i]@),
{
    let mut r: Vec<Vec<MessageField>> = Vec::new();
    let mut i: usize = 0;
    while i < v.len()
        invariant
            i <= v@.len(),
            r@.len() == i,
            forall|j: int| 0 <= j < i ==> fields_view(r@[j]@) == fields_view(v@[j]@),
        decreases v@.len() - i,
    {
        r.push(clone_field_vec(&v[i]));
        i = i + 1;
    }
    r
}

/// Two stores whose keys and field lists agree view-for-view represent the
/// same map.
proof fn lemma_messages_map_congruence(
    n1: Seq<String>,
    f1: Seq<Vec<MessageField>>,
    n2: Seq<String>,
    f2: Seq<Vec<MessageField>>,
)
    requires
        n1.len() == n2.len(),
        f1.len() == f2.len(),
        forall|i: int| 0 <= i < n1.len() ==> n1[i]@ == n2[i]@,
        forall|i: int| 0 <= i < f1.len() ==> fields_view(f1[i]@) == fields_view(f2[i]@),
    ensures
        messages_map(n1, f1) == messages_map(n2, f2),
    decreases n1.len(),
{
    if n1.len() > 0 && f1.len() > 0 {
        lemma_messages_map_congruence(n1.drop_last(), f1.drop_last(), n2.drop_last(), f2.drop_last());
        assert(n1[n1.len() - 1]@ == n2[n2.len() - 1]@);
        assert(fields_view(f1[f1.len() - 1]@) == fields_view(f2[f2.len() - 1]@));
        assert(messages_map(n1, f1) =~= messages_map(n2, f2));
    }
}

impl Clone for Cache {
    /// An immutable snapshot of everything this cache knows. The live cache
    /// is not touched.
    fn clone(&self) -> (r: Self)
        ensures
            r@ == self@,
            self.wf() ==> r.wf(),
    {
        let r = Cache {
            known_names: clone_text_vec(&self.known_names),
            known_ids: clone_id_vec(&self.known_ids),
            message_names: clone_text_vec(&self.message_names),
            message_fields: clone_fields_table(&self.message_fields),
        };
        proof {
            assert(r@.names =~= self@.names);
            lemma_messages_map_congruence(
                r.message_names@,
                r.message_fields@,
                self.message_names@,
                self.message_fields@,
            );
            assert(r@ =~~= self@);
        }
        r
    }
}

impl Default for Cache {
    /// The default cache is the empty one.
    fn default() -> (r: Cache)
        ensures
            r.wf(),
            r@.names == Seq::<Seq<char>>::empty(),
            r@.ids == Seq::<u16>::empty(),
            r@.messages == Map::<Seq<char>, Seq<FieldModel>>::empty(),
    {
        Cache::new()
    }
}

} // verus!
