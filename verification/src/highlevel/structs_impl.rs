//! Methods of the high-level types.
use vstd::prelude::*;

use crate::convert::FromMapError;
use crate::highlevel::structs::{InstantiationEventData, RpcCall, RpcEvent, SendSerializeEvent};
use crate::highlevel::PhotonMapConversion;
use crate::ordered_map::lookup;
use crate::value::{copy_values, values_view, PhotonDataType, PhotonHashmap, PhotonValue};

verus! {

/// The largest number of views a player can own; view ids are numbered per owner in blocks of
/// this size.
pub const PHOTON_NETWORK_MAX_VIEW_IDS: i32 = 1000;

/// Integer division that rounds towards zero, as Rust's `/` does.
pub open spec fn div_toward_zero(a: int, b: int) -> int {
    if a >= 0 {
        a / b
    } else {
        -((-a) / b)
    }
}

/// The owner of the view with id `view_id`.
pub open spec fn owner_of(view_id: i32) -> i32 {
    div_toward_zero(view_id as int, PHOTON_NETWORK_MAX_VIEW_IDS as int) as i32
}

/// Represents a Photon View ID
#[derive(Debug, Copy, Clone, PartialEq, Eq, Structural, PartialOrd, Ord)]
pub struct ViewId(pub i32);

impl ViewId {
    /// The actor that owns this view.
    pub fn get_owner_id(&self) -> (r: i32)
        ensures
            r == owner_of(self.0),
    {
        self.0 / PHOTON_NETWORK_MAX_VIEW_IDS
    }
}

/// A serialized object stream. Can represent a `Monobehavior`, a `Transform`, a `Rigidbody` or
/// a `RigidBody2D`.
///
/// See [SendSerializeEvent].
#[derive(Debug)]
pub struct SerializedData {
    pub view_id: i32,
    pub data_stream: Vec<PhotonDataType>,
}

/// The serialized data held by an object array: its view id, then two items about compression,
/// then the data stream.
pub open spec fn serialized_from_objects(data: Seq<PhotonValue>) -> Option<(i32, Seq<PhotonValue>)> {
    if data.len() < 3 {
        None
    } else {
        match data[0] {
            PhotonValue::Integer(i) => Some((i, data.subrange(3, data.len() as int))),
            _ => None,
        }
    }
}

impl SerializedData {
    /// The view id and the data stream.
    pub open spec fn model(&self) -> (i32, Seq<PhotonValue>) {
        (self.view_id, values_view(self.data_stream@))
    }

    /// Reads serialized data out of an object array.
    pub fn from_object_array(data: Vec<PhotonDataType>) -> (r: Option<Self>)
        ensures
            match serialized_from_objects(values_view(data@)) {
                Some(m) => r matches Some(x) && x.model() == m,
                None => r is None,
            },
    {
        proof {
            crate::value::lemma_values_view(data@);
        }
        if data.len() < 3 {
            return None;
        }
        let view_id = match &data[0] {
            PhotonDataType::Integer(i) => *i,
            _ => return None,
        };
        // index 1 and 2 are related to compression, which is not implemented yet
        let mut data = data;
        let ghost all = data@;
        let data_stream = data.split_off(3);
        proof {
            crate::value::lemma_values_view(data_stream@);
            assert(values_view(data_stream@) =~= values_view(all).subrange(3, all.len() as int));
        }
        Some(SerializedData { view_id, data_stream })
    }

    /// The view of the serialized object.
    pub fn get_view_id(&self) -> (r: ViewId)
        ensures
            r == ViewId(self.view_id),
    {
        ViewId(self.view_id)
    }

    /// The actor that owns the serialized object.
    pub fn get_owner_id(&self) -> (r: i32)
        ensures
            r == owner_of(self.view_id),
    {
        self.view_id / PHOTON_NETWORK_MAX_VIEW_IDS
    }
}

impl RpcCall {
    /// The view the call is made on.
    pub fn get_view_id(&self) -> (r: ViewId)
        ensures
            r == ViewId(self.net_view_id),
    {
        ViewId(self.net_view_id)
    }

    /// The actor that owns the view the call is made on.
    pub fn get_owner_id(&self) -> (r: i32)
        ensures
            r == owner_of(self.net_view_id),
    {
        self.net_view_id / PHOTON_NETWORK_MAX_VIEW_IDS
    }
}

impl InstantiationEventData {
    /// The view of the instantiated object.
    pub fn get_view_id(&self) -> (r: ViewId)
        ensures
            r == ViewId(self.instantiation_id),
    {
        ViewId(self.instantiation_id)
    }
}

impl RpcEvent {
    /// Reads the RPC call out of [Self::data], draining it.
    pub fn extract_rpc_call(&mut self) -> (r: Result<RpcCall, FromMapError>)
        ensures
            final(self).sender_actor == old(self).sender_actor,
            final(self).data.entries() == Seq::<(PhotonDataType, PhotonDataType)>::empty(),
            match crate::convert::checked(crate::convert::kinded(crate::convert::found(old(self).data.entries(), crate::convert::byte_key_views(RpcCall::keys())), RpcCall::kinds()), RpcCall::keys(), RpcCall::required()) {
                Ok(vals) => r matches Ok(x) && x.fields() == vals && x.custom() == crate::convert::custom_entries(crate::convert::remove_keys(old(self).data.entries(), crate::convert::byte_key_views(RpcCall::keys()))),
                Err(e) => r == Err::<RpcCall, FromMapError>(e),
            },
    {
        RpcCall::from_map(&mut self.data)
    }
}

/// The key under which the `i`-th item of serialized data is stored: items start at key 10 and
/// count up, wrapping around after 255.
pub open spec fn serialized_item_key(i: int) -> u8 {
    ((i + 10) % 256) as u8
}

/// The serialized data in the data of a send-serialize event. There is none without an entry
/// under key 1; otherwise two entries are the header, and each other entry is an item.
pub open spec fn serialized_items(t: Seq<(PhotonDataType, PhotonDataType)>) -> Option<Seq<(i32, Seq<PhotonValue>)>> {
    if lookup(t, PhotonValue::Byte(1)) is None || t.len() < 2 {
        None
    } else {
        let n = t.len() - 2;
        if forall|i: int| 0 <= i < n ==> #[trigger] serialized_item(t, i) is Some {
            Some(Seq::new(n as nat, |i: int| serialized_item(t, i).unwrap()))
        } else {
            None
        }
    }
}

/// The `i`-th item of serialized data, if it is an object array holding serialized data.
pub open spec fn serialized_item(t: Seq<(PhotonDataType, PhotonDataType)>, i: int) -> Option<(i32, Seq<PhotonValue>)> {
    match lookup(t, PhotonValue::Byte(serialized_item_key(i))) {
        Some(PhotonDataType::ObjectArray(x)) => serialized_from_objects(values_view(x@)),
        _ => None,
    }
}

impl SendSerializeEvent {
    /// Gets a copy of the serialized data in the data of a send-serialize event.
    pub fn parse_serialized_data(data: &PhotonHashmap) -> (r: Option<Vec<SerializedData>>)
        ensures
            match serialized_items(data.entries()) {
                Some(items) => r matches Some(v) && v@.len() == items.len() && forall|i: int| 0 <= i < items.len() ==> (#[trigger] v@[i]).model() == items[i],
                None => r is None,
            },
    {
        if data.get(&PhotonDataType::Byte(1)).is_none() {
            return None;
        }
        let header_len: usize = if data.contains_key(&PhotonDataType::Byte(1)) {
            2
        } else {
            1
        };
        if data.len() < header_len {
            return None;
        }
        let data_len = data.len() - header_len;
        let ghost t = data.entries();
        let mut ret: Vec<SerializedData> = Vec::new();
        let mut i: usize = 0;
        while i < data_len
            invariant
                i <= data_len,
                data_len == t.len() - 2,
                t == data.entries(),
                lookup(t, PhotonValue::Byte(1)) is Some,
                ret@.len() == i,
                forall|j: int| 0 <= j < i ==> #[trigger] serialized_item(t, j) is Some,
                forall|j: int| 0 <= j < i ==> (#[trigger] ret@[j]).model() == serialized_item(t, j).unwrap(),
            decreases data_len - i,
        {
            // items start at key 10 and count up, wrapping around
            let low = i % 256;
            let index: u8 = if low < 246 {
                (low + 10) as u8
            } else {
                (low - 246) as u8
            };
            assert(index == serialized_item_key(i as int)) by (nonlinear_arith)
                requires
                    low == i % 256,
                    index == if low < 246 { low + 10 } else { low - 246 },
            ;
            let found = match data.get(&PhotonDataType::Byte(index)) {
                Some(PhotonDataType::ObjectArray(x)) => x,
                _ => {
                    assert(serialized_item(t, i as int) is None);
                    return None;
                },
            };
            let item = match SerializedData::from_object_array(copy_values(found)) {
                Some(s) => s,
                None => {
                    assert(serialized_item(t, i as int) is None);
                    return None;
                },
            };
            ret.push(item);
            i = i + 1;
        }
        Some(ret)
    }

    /// Gets a copy of the serialized data in this event.
    pub fn get_serialized_data(&self) -> (r: Option<Vec<SerializedData>>)
        ensures
            match serialized_items(self.data.entries()) {
                Some(items) => r matches Some(v) && v@.len() == items.len() && forall|i: int| 0 <= i < items.len() ==> (#[trigger] v@[i]).model() == items[i],
                None => r is None,
            },
    {
        Self::parse_serialized_data(&self.data)
    }
}

} // verus!
