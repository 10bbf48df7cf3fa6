use vstd::prelude::*;

verus! {

/// A decoded variable-width integer of the wire format, kept exactly as the
/// decoder produced it. The engine itself never interprets it; the embedder's
/// script bridge narrows it to a numeric form when handing it to a script.
#[verifier::external_type_specification]
#[verifier::external_body]
pub struct ExVarInt(protoshark::VarInt);

/// The decoder's own message type, opaque here; `DecodedMessage::from`
/// turns it into the library's message tree.
#[verifier::external_type_specification]
#[verifier::external_body]
pub struct ExProtoMessage(protoshark::SerializedMessage);

/// The decoder's own value type, opaque here.
#[verifier::external_type_specification]
#[verifier::external_body]
pub struct ExProtoValue(protoshark::Value);

/// Represents one value in a decoded message: the library's closed tagged
/// union for all data crossing the script boundary.
///
/// The two float-width variants carry the raw bit patterns of their values;
/// the engine never interprets those bits, it only carries them to the
/// script bridge.
#[derive(Debug)]
pub enum FieldValue {
    /// A variable-width integer, as decoded.
    VarInt(protoshark::VarInt),
    /// The bit pattern of a 32-bit float field.
    Float(u32),
    /// The bit pattern of a 64-bit float field.
    Double(u64),
    /// A text field.
    Text(String),
    /// A raw byte field.
    Bytes(Vec<u8>),
    /// A nested message.
    Message(DecodedMessage),
    /// Several values decoded under one field id.
    Repeated(Vec<FieldValue>),
}

/// The kind tag of a `FieldValue`, used to filter reads by kind.
#[derive(Clone, Copy, Debug, PartialEq, Eq, Structural)]
pub enum ValueKind {
    /// A variable-width integer.
    VarInt,
    /// A 32-bit float.
    Float,
    /// A 64-bit float.
    Double,
    /// A text value.
    Text,
    /// A byte sequence.
    Bytes,
    /// A nested message.
    Message,
    /// Several values under one field id.
    Repeated,
}

impl FieldValue {
    /// The kind of this value.
    pub open spec fn kind_spec(self) -> ValueKind {
        match self {
            FieldValue::VarInt(_) => ValueKind::VarInt,
            FieldValue::Float(_) => ValueKind::Float,
            FieldValue::Double(_) => ValueKind::Double,
            FieldValue::Text(_) => ValueKind::Text,
            FieldValue::Bytes(_) => ValueKind::Bytes,
            FieldValue::Message(_) => ValueKind::Message,
            FieldValue::Repeated(_) => ValueKind::Repeated,
        }
    }

    /// Reads the kind tag of this value.
    pub fn kind(&self) -> (k: ValueKind)
        ensures
            k == self.kind_spec(),
    {
        match self {
            FieldValue::VarInt(_) => ValueKind::VarInt,
            FieldValue::Float(_) => ValueKind::Float,
            FieldValue::Double(_) => ValueKind::Double,
            FieldValue::Text(_) => ValueKind::Text,
            FieldValue::Bytes(_) => ValueKind::Bytes,
            FieldValue::Message(_) => ValueKind::Message,
            FieldValue::Repeated(_) => ValueKind::Repeated,
        }
    }
}

/// A decoded message: a field-id-keyed collection of values, the structured
/// view of one packet blob that scripts inspect.
#[derive(Debug)]
pub struct DecodedMessage {
    entries: Vec<(u32, FieldValue)>,
}

impl View for DecodedMessage {
    type V = Seq<(u32, FieldValue)>;

    closed spec fn view(&self) -> Seq<(u32, FieldValue)> {
        self.entries@
    }
}

/// The first value stored under `key`, if any.
pub open spec fn spec_get(entries: Seq<(u32, FieldValue)>, key: u32) -> Option<FieldValue>
    decreases entries.len(),
{
    if entries.len() == 0 {
        None
    } else if entries.first().0 == key {
        Some(entries.first().1)
    } else {
        spec_get(entries.drop_first(), key)
    }
}

/// The entries whose value has the given kind, in entry order.
pub open spec fn filtered_of_kind(entries: Seq<(u32, FieldValue)>, kind: ValueKind) -> Seq<
    (u32, FieldValue),
>
    decreases entries.len(),
{
    if entries.len() == 0 {
        Seq::empty()
    } else {
        let rest = filtered_of_kind(entries.drop_last(), kind);
        if entries.last().1.kind_spec() == kind {
            rest.push(entries.last())
        } else {
            rest
        }
    }
}

/// The field ids of the entries, in entry order.
pub open spec fn key_seq(entries: Seq<(u32, FieldValue)>) -> Seq<u32> {
    entries.map(|i: int, e: (u32, FieldValue)| e.0)
}

/// When the first `i` entries miss `key` and entry `i` carries it, the lookup
/// lands on entry `i`.
proof fn lemma_spec_get_at(entries: Seq<(u32, FieldValue)>, key: u32, i: int)
    requires
        0 <= i < entries.len(),
        entries[i].0 == key,
        forall|j: int| 0 <= j < i ==> entries[j].0 != key,
    ensures
        spec_get(entries, key) == Some(entries[i].1),
    decreases i,
{
    if i > 0 {
        assert(entries.drop_first()[i - 1] == entries[i]);
        assert(forall|j: int| 0 <= j < i - 1 ==> entries.drop_first()[j] == entries[j + 1]);
        lemma_spec_get_at(entries.drop_first(), key, i - 1);
    }
}

/// When no entry carries `key`, the lookup misses.
proof fn lemma_spec_get_none(entries: Seq<(u32, FieldValue)>, key: u32)
    requires
        forall|j: int| 0 <= j < entries.len() ==> entries[j].0 != key,
    ensures
        spec_get(entries, key) is None,
    decreases entries.len(),
{
    if entries.len() > 0 {
        assert(forall|j: int|
            0 <= j < entries.len() - 1 ==> entries.drop_first()[j] == entries[j + 1]);
        lemma_spec_get_none(entries.drop_first(), key);
    }
}

impl DecodedMessage {
    /// The field ids come strictly ascending, so each id appears once.
    pub open spec fn keys_sorted(self) -> bool {
        forall|i: int, j: int| 0 <= i < j < self@.len() ==> self@[i].0 < self@[j].0
    }

    /// Fetches the value stored under the given field id.
    ///
    /// Returns `None` if the field with the given ID does not exist.
    pub fn get(&self, key: u32) -> (r: Option<&FieldValue>)
        ensures
            match r {
                Some(v) => spec_get(self@, key) == Some(*v),
                None => spec_get(self@, key) is None,
            },
    {
        let mut i: usize = 0;
        while i < self.entries.len()
            invariant
                i <= self.entries@.len(),
                forall|j: int| 0 <= j < i ==> self.entries@[j].0 != key,
            decreases self.entries@.len() - i,
        {
            if self.entries[i].0 == key {
                proof {
                    lemma_spec_get_at(self.entries@, key, i as int);
                }
                return Some(&self.entries[i].1);
            }
            i = i + 1;
        }
        proof {
            lemma_spec_get_none(self.entries@, key);
        }
        None
    }

    /// Fetches the value under the given field id only when it has the given
    /// kind; an absent id or a value of another kind both yield `None`.
    pub fn get_of_kind(&self, key: u32, kind: ValueKind) -> (r: Option<&FieldValue>)
        ensures
            match r {
                Some(v) => spec_get(self@, key) == Some(*v) && v.kind_spec() == kind,
                None => match spec_get(self@, key) {
                    Some(v) => v.kind_spec() != kind,
                    None => true,
                },
            },
    {
        match self.get(key) {
            Some(v) => {
                if v.kind() == kind {
                    Some(v)
                } else {
                    None
                }
            },
            None => None,
        }
    }

    /// Enumerates the (field id, value) pairs whose value has the given kind,
    /// in entry order.
    pub fn all_of_kind(&self, kind: ValueKind) -> (r: Vec<(u32, &FieldValue)>)
        ensures
            r@.len() == filtered_of_kind(self@, kind).len(),
            forall|t: int|
                0 <= t < r@.len() ==> r@[t].0 == filtered_of_kind(self@, kind)[t].0 && *r@[t].1
                    == filtered_of_kind(self@, kind)[t].1,
    {
        let mut r: Vec<(u32, &FieldValue)> = Vec::new();
        let mut i: usize = 0;
        while i < self.entries.len()
            invariant
                i <= self.entries@.len(),
                r@.len() == filtered_of_kind(self.entries@.take(i as int), kind).len(),
                forall|t: int|
                    0 <= t < r@.len() ==> r@[t].0 == filtered_of_kind(
                        self.entries@.take(i as int),
                        kind,
                    )[t].0 && *r@[t].1 == filtered_of_kind(self.entries@.take(i as int), kind)[t].1,
                filtered_of_kind(self.entries@.take(i as int), kind).len() <= i,
            decreases self.entries@.len() - i,
        {
            proof {
                assert(self.entries@.take(i + 1 as int).drop_last() =~= self.entries@.take(
                    i as int,
                ));
                assert(self.entries@.take(i + 1 as int).last() == self.entries@[i as int]);
            }
            let entry = &self.entries[i];
            if entry.1.kind() == kind {
                r.push((entry.0, &entry.1));
            }
            i = i + 1;
        }
        proof {
            assert(self.entries@.take(self.entries@.len() as int) =~= self.entries@);
        }
        r
    }

    /// Enumerates all field ids present, in entry order.
    pub fn keys(&self) -> (r: Vec<u32>)
        ensures
            r@ == key_seq(self@),
    {
        let mut r: Vec<u32> = Vec::new();
        let mut i: usize = 0;
        while i < self.entries.len()
            invariant
                i <= self.entries@.len(),
                r@ =~= key_seq(self.entries@.take(i as int)),
            decreases self.entries@.len() - i,
        {
            r.push(self.entries[i].0);
            proof {
                assert(r@ =~= key_seq(self.entries@.take(i + 1 as int)));
            }
            i = i + 1;
        }
        proof {
            assert(self.entries@.take(self.entries@.len() as int) =~= self.entries@);
        }
        r
    }
}

/// The library value standing for one decoder value.
pub uninterp spec fn proto_value_view(v: protoshark::Value) -> FieldValue;

/// The entries of a decoder message: the field id and the library value
/// standing for the decoded value, in ascending id order.
pub uninterp spec fn proto_entries(m: protoshark::SerializedMessage) -> Seq<(u32, FieldValue)>;

/// What the decoder yields on bytes it can step through: the entries of the
/// decoded message, or nothing when the bytes do not satisfy the wire format.
/// The engine only speaks of this on inputs satisfying `wire_safe`, the ones
/// it ever hands to the decoder.
pub uninterp spec fn decoded(data: Seq<u8>) -> Option<Seq<(u32, FieldValue)>>;

/// How many bytes the decoder's varint reader takes from position `i` in a
/// window ending at `hi`: everything up to and including the first byte
/// without the continuation bit, or everything left in the window.
pub open spec fn group_len(data: Seq<u8>, i: int, hi: int) -> int
    decreases hi - i,
{
    if i >= hi {
        0
    } else if data[i] < 128 {
        1
    } else {
        1 + group_len(data, i + 1, hi)
    }
}

/// The decoder's 32-bit fold of one varint group: the low seven bits of each
/// byte, first byte least significant, truncated to 32 bits.
pub open spec fn group_fold(data: Seq<u8>, i: int, l: int) -> u32
    decreases l,
{
    if l <= 0 {
        0u32
    } else {
        (group_fold(data, i + 1, l - 1) << 7u32) | ((data[i] & 0x7f) as u32)
    }
}

/// A varint group takes at least one byte and never leaves the window.
proof fn lemma_group_len_bounds(data: Seq<u8>, i: int, hi: int)
    requires
        i < hi,
    ensures
        1 <= group_len(data, i, hi) <= hi - i,
    decreases hi - i,
{
    if data[i] < 128 {
    } else if i + 1 < hi {
        lemma_group_len_bounds(data, i + 1, hi);
    } else {
        assert(group_len(data, i + 1, hi) == 0);
    }
}

/// Whether the decoder can step through the window `index..hi` of these
/// bytes. The walk mirrors the decoder's own: a header group, then per wire
/// type a value group, eight bytes, a length-delimited run (walked
/// recursively), or four bytes; a header that folds negative or carries a
/// group or unknown wire type stops the decoder with an error, which is a
/// safe stop. The one unsafe situation, refused here, is a length-delimited
/// length whose 32-bit fold is negative: on it the decoder's bounds
/// arithmetic breaks instead of returning.
pub open spec fn wire_safe_in(data: Seq<u8>, index: int, hi: int) -> bool
    decreases hi - index,
    via wire_safe_in_decreases
{
    if index >= hi {
        true
    } else {
        let hl = group_len(data, index, hi);
        let hv = group_fold(data, index, hl);
        if hv >= 0x8000_0000u32 {
            true
        } else {
            let wt = hv & 7u32;
            let i2 = index + hl;
            if wt == 0u32 {
                wire_safe_in(data, i2 + group_len(data, i2, hi), hi)
            } else if wt == 1u32 {
                hi < i2 + 8 || wire_safe_in(data, i2 + 8, hi)
            } else if wt == 2u32 {
                let ll = group_len(data, i2, hi);
                let lv = group_fold(data, i2, ll);
                if lv >= 0x8000_0000u32 {
                    false
                } else {
                    let i3 = i2 + ll;
                    hi < i3 + lv || (wire_safe_in(data, i3, i3 + lv) && wire_safe_in(
                        data,
                        i3 + lv,
                        hi,
                    ))
                }
            } else if wt == 5u32 {
                hi < i2 + 4 || wire_safe_in(data, i2 + 4, hi)
            } else {
                true
            }
        }
    }
}

#[via_fn]
proof fn wire_safe_in_decreases(data: Seq<u8>, index: int, hi: int) {
    if index < hi {
        lemma_group_len_bounds(data, index, hi);
        let hl = group_len(data, index, hi);
        let i2 = index + hl;
        if i2 < hi {
            lemma_group_len_bounds(data, i2, hi);
        }
    }
}

/// Whether the decoder can step through this whole blob without its bounds
/// arithmetic breaking.
pub open spec fn wire_safe(data: Seq<u8>) -> bool {
    wire_safe_in(data, 0, data.len() as int)
}

/// Whether this blob decodes: the decoder must be able to step through it and
/// the bytes must satisfy the wire format.
pub open spec fn blob_decodes(data: Seq<u8>) -> bool {
    wire_safe(data) && decoded(data) is Some
}

/// A window of continuation bytes shifts the varint reader by its length.
proof fn lemma_group_len_step(data: Seq<u8>, i: int, j: int, hi: int)
    requires
        i <= j <= hi,
        forall|k: int| i <= k < j ==> data[k] >= 128,
    ensures
        group_len(data, i, hi) == (j - i) + group_len(data, j, hi),
    decreases j - i,
{
    if i < j {
        lemma_group_len_step(data, i + 1, j, hi);
    }
}

/// Reads one varint group as the decoder does: its byte length and its folded
/// 32-bit value.
fn read_group(data: &[u8], start: usize, hi: usize) -> (r: (usize, u32))
    requires
        start <= hi,
        hi <= data@.len(),
    ensures
        r.0 == group_len(data@, start as int, hi as int),
        start + r.0 <= hi,
        r.1 == group_fold(data@, start as int, r.0 as int),
{
    let mut j: usize = start;
    while j < hi && data[j] >= 128
        invariant
            start <= j <= hi,
            hi <= data@.len(),
            forall|k: int| start <= k < j ==> data@[k] >= 128,
        decreases hi - j,
    {
        j = j + 1;
    }
    let end: usize = if j < hi {
        j + 1
    } else {
        hi
    };
    proof {
        lemma_group_len_step(data@, start as int, j as int, hi as int);
    }
    let len = end - start;
    let mut value: u32 = 0;
    let mut k: usize = end;
    while k > start
        invariant
            start <= k <= end,
            end <= data@.len(),
            value == group_fold(data@, k as int, end - k),
        decreases k,
    {
        k = k - 1;
        value = (value << 7u32) | ((data[k] & 0x7f) as u32);
    }
    (len, value)
}

/// Decides whether the decoder can step through the window `lo..hi`, walking
/// exactly as `wire_safe_in` describes.
fn scan_window(data: &[u8], lo: usize, hi: usize) -> (r: bool)
    requires
        lo <= hi,
        hi <= data@.len(),
    ensures
        r == wire_safe_in(data@, lo as int, hi as int),
    decreases hi - lo,
{
    let mut index = lo;
    while index < hi
        invariant
            lo <= index <= hi,
            hi <= data@.len(),
            wire_safe_in(data@, lo as int, hi as int) == wire_safe_in(
                data@,
                index as int,
                hi as int,
            ),
        decreases hi - index,
    {
        let (hl, hv) = read_group(data, index, hi);
        proof {
            lemma_group_len_bounds(data@, index as int, hi as int);
        }
        if hv >= 0x8000_0000 {
            return true;
        }
        let wt = hv & 7;
        let i2 = index + hl;
        if wt == 0 {
            let (vl, _) = read_group(data, i2, hi);
            index = i2 + vl;
        } else if wt == 1 {
            if hi - i2 < 8 {
                return true;
            }
            index = i2 + 8;
        } else if wt == 2 {
            let (ll, lv) = read_group(data, i2, hi);
            if lv >= 0x8000_0000 {
                return false;
            }
            let i3 = i2 + ll;
            let run = lv as usize;
            if hi - i3 < run {
                return true;
            }
            if !scan_window(data, i3, i3 + run) {
                return false;
            }
            index = i3 + run;
        } else if wt == 5 {
            if hi - i2 < 4 {
                return true;
            }
            index = i2 + 4;
        } else {
            return true;
        }
    }
    true
}

/// Relies on the shape of protoshark::Value: each variant is moved one for
/// one into the library's matching variant; float payloads are kept as their
/// raw bit patterns.
#[verifier::external_body]
fn of_proto_value(v: &protoshark::Value) -> (r: FieldValue)
    ensures
        r == proto_value_view(*v),
{
    match v {
        protoshark::Value::VarInt(x) => FieldValue::VarInt(x.clone()),
        protoshark::Value::Float(x) => FieldValue::Float(x.to_bits()),
        protoshark::Value::Double(x) => FieldValue::Double(x.to_bits()),
        protoshark::Value::String(x) => FieldValue::Text(x.clone()),
        protoshark::Value::Bytes(x) => FieldValue::Bytes(x.clone()),
        protoshark::Value::Message(x) => FieldValue::Message(DecodedMessage::from(x)),
        protoshark::Value::Repeated(xs) => FieldValue::Repeated(
            xs.iter().map(of_proto_value).collect(),
        ),
    }
}

impl DecodedMessage {
    /// Converts a `protoshark` message into the library's message tree.
    ///
    /// Relies on protoshark::SerializedMessage::iter: a walk of the backing
    /// ordered map, so the entries come in strictly ascending field-id order.
    #[verifier::external_body]
    pub fn from(message: &protoshark::SerializedMessage) -> (r: Self)
        ensures
            r@ == proto_entries(*message),
            r.keys_sorted(),
    {
        let entries = message.iter().map(|(k, v)| (*k, of_proto_value(v))).collect();
        DecodedMessage { entries }
    }
}

/// Relies on protoshark::decode: a deterministic parse of the protobuf wire
/// format, yielding a field-id-keyed message, or an error when the bytes do
/// not satisfy the format. The decoder returns normally only on bytes it can
/// step through — on others a length-delimited length folding negative breaks
/// its bounds arithmetic — so only `wire_safe` bytes are handed to it.
#[verifier::external_body]
fn decode_proto(data: &[u8]) -> (r: Option<protoshark::SerializedMessage>)
    requires
        wire_safe(data@),
    ensures
        match r {
            Some(m) => decoded(data@) == Some(proto_entries(m)),
            None => decoded(data@) is None,
        },
{
    protoshark::decode(data).ok()
}

/// Decodes one protobuf-encoded blob into the library's message tree.
///
/// Yields `None` exactly when the blob does not decode: when the decoder
/// cannot step through the bytes, or when they do not satisfy its wire
/// format.
pub fn decode(data: &[u8]) -> (r: Option<DecodedMessage>)
    ensures
        match r {
            Some(m) => blob_decodes(data@) && decoded(data@) == Some(m@) && m.keys_sorted(),
            None => !blob_decodes(data@),
        },
        r is Some <==> blob_decodes(data@),
{
    if !scan_window(data, 0, data.len()) {
        return None;
    }
    match decode_proto(data) {
        Some(m) => Some(DecodedMessage::from(&m)),
        None => None,
    }
}

} // verus!
