use bulletforcehax::codec;
use bulletforcehax::highlevel::structs::{RpcCall, SendSerializeEvent};
use bulletforcehax::highlevel::structs_impl::{SerializedData, ViewId};
use bulletforcehax::ordered_map::OrderedMap;
use bulletforcehax::protocol::player_script::{PlayerScript, UnexpectedItem};
use bulletforcehax::protocol::rpc::{get_rpc_method_name, MalformedRpcCall, METHOD_NAMES};
use bulletforcehax::value::{CustomData, PhotonDataType, PhotonHashmap};

fn script_items() -> Vec<PhotonDataType> {
    let mut v = vec![];
    for i in 0..13 {
        v.push(PhotonDataType::Short(i * 10));
    }
    for i in 0..5 {
        v.push(PhotonDataType::Byte(100 + i));
    }
    v.push(PhotonDataType::Integer(77));
    v.push(PhotonDataType::Custom(CustomData { type_code: 1, data: vec![1, 2] }));
    v.push(PhotonDataType::Custom(CustomData { type_code: 2, data: vec![3] }));
    v
}

#[test]
fn player_script_reads_all_fields() {
    let s = PlayerScript::from_object_array(&script_items()).unwrap();
    assert_eq!(s.aiming_x, 0);
    assert_eq!(s.aiming_y, 10);
    assert_eq!(s.health, 120);
    assert_eq!(s.accessory_type, 100);
    assert_eq!(s.bitflags, 104);
    assert_eq!(s.last_damager_id, 77);
    assert_eq!(s.unknown_1.type_code, 1);
    assert_eq!(s.unknown_1.data, vec![1, 2]);
    assert_eq!(s.unknown_2.data, vec![3]);
}

#[test]
fn player_script_reports_first_unexpected_item() {
    let mut items = script_items();
    items[13] = PhotonDataType::Short(5);
    items[2] = PhotonDataType::Byte(5);
    assert_eq!(
        PlayerScript::from_object_array(&items).unwrap_err(),
        UnexpectedItem { position: 2, expected_type: codec::SHORT }
    );
    let items = script_items();
    assert_eq!(
        PlayerScript::from_object_array(&items[..18]).unwrap_err(),
        UnexpectedItem { position: 18, expected_type: codec::INTEGER }
    );
    assert_eq!(PlayerScript::from_object_array(&[]).unwrap_err(), UnexpectedItem { position: 0, expected_type: codec::SHORT });
}

fn rpc(index: Option<u8>, name: Option<&str>) -> RpcCall {
    RpcCall {
        net_view_id: 2001,
        other_side_prefix: None,
        server_timestamp: None,
        method_name: name.map(|n| n.to_string()),
        in_method_parameters: None,
        rpc_index: index,
        custom_properties: OrderedMap::new(),
    }
}

#[test]
fn rpc_method_names() {
    assert_eq!(get_rpc_method_name(&rpc(Some(0), None)).unwrap(), "AcknowledgeDamageDoneRPC");
    assert_eq!(get_rpc_method_name(&rpc(Some(4), None)).unwrap(), "Chat");
    assert_eq!(get_rpc_method_name(&rpc(Some(4), Some("Other"))).unwrap(), "Other");
    assert_eq!(get_rpc_method_name(&rpc(Some(200), Some("Named"))).unwrap(), "Named");
    assert_eq!(get_rpc_method_name(&rpc(None, Some("Custom"))).unwrap(), "Custom");
    assert_eq!(get_rpc_method_name(&rpc(None, None)).unwrap_err(), MalformedRpcCall);
    assert_eq!(METHOD_NAMES.len(), 80);
    assert_eq!(rpc(None, None).get_owner_id(), 2);
    assert_eq!(rpc(None, None).get_view_id(), ViewId(2001));
}

#[test]
fn owners_of_views() {
    assert_eq!(ViewId(1001).get_owner_id(), 1);
    assert_eq!(ViewId(999).get_owner_id(), 0);
    assert_eq!(ViewId(-1500).get_owner_id(), -1);
}

fn object_array(view_id: i32, stream: &[i16]) -> PhotonDataType {
    let mut v = vec![PhotonDataType::Integer(view_id), PhotonDataType::Null, PhotonDataType::Null];
    for x in stream {
        v.push(PhotonDataType::Short(*x));
    }
    PhotonDataType::ObjectArray(v)
}

#[test]
fn serialized_data_from_object_array() {
    let PhotonDataType::ObjectArray(items) = object_array(3005, &[7, 8]) else { unreachable!() };
    let d = SerializedData::from_object_array(items).unwrap();
    assert_eq!(d.view_id, 3005);
    assert_eq!(d.data_stream.len(), 2);
    assert_eq!(d.get_owner_id(), 3);
    assert!(SerializedData::from_object_array(vec![PhotonDataType::Integer(1), PhotonDataType::Null]).is_none());
    assert!(SerializedData::from_object_array(vec![PhotonDataType::Short(1), PhotonDataType::Null, PhotonDataType::Null]).is_none());
}

#[test]
fn serialized_data_of_event() {
    let mut data = PhotonHashmap::new();
    data.insert(PhotonDataType::Byte(0), PhotonDataType::Integer(123));
    data.insert(PhotonDataType::Byte(1), PhotonDataType::Null);
    data.insert(PhotonDataType::Byte(10), object_array(1001, &[1]));
    data.insert(PhotonDataType::Byte(11), object_array(2002, &[]));
    let ev = SendSerializeEvent { sender_actor: None, data };
    let items = ev.get_serialized_data().unwrap();
    assert_eq!(items.len(), 2);
    assert_eq!(items[0].view_id, 1001);
    assert_eq!(items[1].view_id, 2002);

    let mut data = PhotonHashmap::new();
    data.insert(PhotonDataType::Byte(0), PhotonDataType::Integer(123));
    data.insert(PhotonDataType::Byte(10), object_array(1001, &[1]));
    assert!(SendSerializeEvent { sender_actor: None, data }.get_serialized_data().is_none());

    let mut data = PhotonHashmap::new();
    data.insert(PhotonDataType::Byte(0), PhotonDataType::Integer(123));
    data.insert(PhotonDataType::Byte(1), PhotonDataType::Null);
    data.insert(PhotonDataType::Byte(12), object_array(1001, &[1]));
    assert!(SendSerializeEvent { sender_actor: None, data }.get_serialized_data().is_none());
}
