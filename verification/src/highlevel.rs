//! High-level types of Photon Realtime and Photon Unity Networking, read out of and written into
//! the maps that messages carry.
pub mod constants;
pub mod structs;
pub mod structs_impl;

use vstd::prelude::*;

use crate::convert::{
    byte_key_views, byte_keys, checked, custom_entries, found, kinded, params_rewritten, params_typed, put_all, put_custom, remove_keys,
    table_rewritten, table_typed, FromMapError,
};
use crate::message::ParameterMap;
use crate::ordered_map::{keys_unique, lookup};
use crate::value::{PhotonDataType, PhotonHashmap, PhotonValue};

verus! {

/// Allows conversion between a type and a photon hashmap with byte keys.
///
/// Each field is stored under a key, as a value of a given type. Reading removes the keys of the
/// fields from the map; a value of another type counts as absent, and an absent required field
/// makes reading fail with the key of the first such field.
pub trait PhotonParameterMapConversion: Sized {
    /// The keys under which the fields are stored, in order.
    spec fn keys() -> Seq<u8>;

    /// The type code that the value of each field must have; `None` accepts any value.
    spec fn kinds() -> Seq<Option<u8>>;

    /// Whether each field must be present.
    spec fn required() -> Seq<bool>;

    /// The fields as values, in order; `None` for an absent field.
    spec fn fields(&self) -> Seq<Option<PhotonDataType>>;

    fn from_map(properties: &mut ParameterMap) -> (r: Result<Self, FromMapError>)
        ensures
            final(properties).entries() == remove_keys(old(properties).entries(), Self::keys()),
            match checked(kinded(found(old(properties).entries(), Self::keys()), Self::kinds()), Self::keys(), Self::required()) {
                Ok(vals) => r matches Ok(x) && x.fields() == vals,
                Err(e) => r == Err::<Self, FromMapError>(e),
            },
    ;

    /// Stores the fields that are present, in order.
    fn into_map(self, map: &mut ParameterMap)
        ensures
            final(map).entries() == put_all(old(map).entries(), Self::keys(), self.fields()),
    ;

    /// Reading back what was written into an empty map gives the same fields.
    proof fn lemma_map_roundtrip(&self)
        ensures
            checked(kinded(found(put_all(Seq::<(u8, PhotonDataType)>::empty(), Self::keys(), self.fields()), Self::keys()), Self::kinds()), Self::keys(), Self::required()) == Ok::<Seq<Option<PhotonDataType>>, FromMapError>(self.fields()),
    ;

    /// Writing the fields read out of a parameter map back into what is left of it gives the
    /// same entries, where every field had a value of its type: each code gives the value it gave
    /// before.
    proof fn lemma_map_reread(es: Seq<(u8, PhotonDataType)>)
        requires
            keys_unique(es),
            params_typed(es, Self::keys(), Self::kinds()),
        ensures
            keys_unique(params_rewritten(es, Self::keys(), Self::kinds())),
            forall|q: u8| #[trigger] lookup(params_rewritten(es, Self::keys(), Self::kinds()), q) == lookup(es, q),
    ;
}

/// Allows conversion between a type and a photon hashmap.
///
/// Each field is stored under a byte key, as a value of a given type; the entries under string
/// keys are the custom properties. Reading removes the keys of the fields, then takes every
/// entry with a string key as a custom property, leaving the map empty; a value of another type
/// counts as absent, and an absent required field makes reading fail with the key of the first
/// such field.
pub trait PhotonMapConversion: Sized {
    /// The byte keys under which the fields are stored, in order.
    spec fn keys() -> Seq<u8>;

    /// The type code that the value of each field must have; `None` accepts any value.
    spec fn kinds() -> Seq<Option<u8>>;

    /// Whether each field must be present.
    spec fn required() -> Seq<bool>;

    /// The fields as values, in order; `None` for an absent field.
    spec fn fields(&self) -> Seq<Option<PhotonDataType>>;

    /// The custom properties, in order.
    spec fn custom(&self) -> Seq<(String, PhotonDataType)>;

    fn from_map(properties: &mut PhotonHashmap) -> (r: Result<Self, FromMapError>)
        ensures
            final(properties).entries() == Seq::<(PhotonDataType, PhotonDataType)>::empty(),
            match checked(kinded(found(old(properties).entries(), byte_key_views(Self::keys())), Self::kinds()), Self::keys(), Self::required()) {
                Ok(vals) => r matches Ok(x) && x.fields() == vals && x.custom() == custom_entries(remove_keys(old(properties).entries(), byte_key_views(Self::keys()))),
                Err(e) => r == Err::<Self, FromMapError>(e),
            },
    ;

    /// Stores the fields that are present, in order, then the custom properties.
    fn into_map(self, map: &mut PhotonHashmap)
        ensures
            final(map).entries() == put_custom(put_all(old(map).entries(), byte_keys(Self::keys()), self.fields()), self.custom()),
    ;

    /// Reading back what was written into an empty map gives the same fields and custom
    /// properties.
    proof fn lemma_map_roundtrip(&self)
        requires
            keys_unique(self.custom()),
        ensures
            checked(kinded(found(put_custom(put_all(Seq::empty(), byte_keys(Self::keys()), self.fields()), self.custom()), byte_key_views(Self::keys())), Self::kinds()), Self::keys(), Self::required()) == Ok::<Seq<Option<PhotonDataType>>, FromMapError>(self.fields()),
            custom_entries(remove_keys(put_custom(put_all(Seq::empty(), byte_keys(Self::keys()), self.fields()), self.custom()), byte_key_views(Self::keys()))) == self.custom(),
    ;

    /// Writing what was read out of a hashtable, whose entries are custom properties or fields
    /// with values of their types, into an empty hashtable gives the same entries: each key gives
    /// the value it gave before. Only the order may differ, the fields coming first.
    proof fn lemma_map_reread(es: Seq<(PhotonDataType, PhotonDataType)>)
        requires
            keys_unique(es),
            table_typed(es, Self::keys(), Self::kinds()),
        ensures
            keys_unique(table_rewritten(es, Self::keys(), Self::kinds())),
            forall|q: PhotonValue| #[trigger] lookup(table_rewritten(es, Self::keys(), Self::kinds()), q) == lookup(es, q),
    ;
}

} // verus!
