//! Mappings between the engine's requests and effects and the messages that stand for them.
//!
//! The parts of a message are mapped elsewhere; here they come as what their mapping has given.

use crate::hash::Digest;
use crate::types::ProtocolVersion;
use vstd::prelude::*;
use vstd::string::StringExecFns;

verus! {

/// Why a message could not be understood.
#[derive(Debug)]
pub struct ParsingError(pub String);

/// Why a request could not be mapped.
#[derive(Debug)]
pub enum MappingError {
    /// A hash had the wrong length.
    TryFromSlice,
    /// A part of the request could not be understood.
    Parsing(ParsingError),
}

/// The message for a change of the global state. Both fields can be missing.
pub struct TransformEntry<K, T> {
    pub key: Option<K>,
    pub transform: Option<T>,
}

impl<K, T> TransformEntry<K, T> {
    /// Returns the message with the given parts.
    pub fn from_parts(parts: (K, T)) -> (r: TransformEntry<K, T>)
        ensures
            r == (TransformEntry { key: Some(parts.0), transform: Some(parts.1) }),
    {
        TransformEntry { key: Some(parts.0), transform: Some(parts.1) }
    }
}

/// The message carries what is given by its parts.
pub open spec fn entry_parts<K, T>(entry: TransformEntry<Result<K, ParsingError>, Result<T, ParsingError>>) -> Option<(K, T)> {
    match (entry.key, entry.transform) {
        (Some(Ok(key)), Some(Ok(transform))) => Some((key, transform)),
        _ => None,
    }
}

/// Why the message cannot be understood: the key comes first, and each part may be missing or be bad
/// by itself.
pub open spec fn entry_error<K, T>(
    entry: TransformEntry<Result<K, ParsingError>, Result<T, ParsingError>>,
    error: ParsingError,
) -> bool {
    match entry.key {
        None => error.0@ == "Protobuf TransformEntry missing Key field"@,
        Some(Err(e)) => error == e,
        Some(Ok(_)) => match entry.transform {
            None => error.0@ == "Protobuf TransformEntry missing Transform field"@,
            Some(Err(e)) => error == e,
            Some(Ok(_)) => false,
        },
    }
}

impl<K, T> TransformEntry<Result<K, ParsingError>, Result<T, ParsingError>> {
    /// Returns the parts of the message.
    pub fn try_into_parts(self) -> (r: Result<(K, T), ParsingError>)
        ensures
            match r {
                Ok(parts) => entry_parts(self) == Some(parts),
                Err(e) => entry_error(self, e),
            },
    {
        let key = match self.key {
            Some(Ok(key)) => key,
            Some(Err(e)) => {
                return Err(e);
            },
            None => {
                return Err(ParsingError(String::from_str("Protobuf TransformEntry missing Key field")));
            },
        };
        let transform = match self.transform {
            Some(Ok(transform)) => transform,
            Some(Err(e)) => {
                return Err(e);
            },
            None => {
                return Err(ParsingError(String::from_str("Protobuf TransformEntry missing Transform field")));
            },
        };
        Ok((key, transform))
    }
}

/// A request to create the global state of a new chain. `C` is the configuration of the engine.
pub struct RunGenesisRequest<C> {
    pub genesis_config_hash: Digest,
    pub protocol_version: ProtocolVersion,
    pub ee_config: C,
}

/// The message for such a request.
pub struct GenesisMessage<C> {
    pub genesis_config_hash: Vec<u8>,
    pub protocol_version: ProtocolVersion,
    pub ee_config: C,
}

impl<C> GenesisMessage<C> {
    /// The message is one for the request.
    pub open spec fn stands_for(self, request: RunGenesisRequest<C>) -> bool {
        &&& self.genesis_config_hash@ == request.genesis_config_hash.0@
        &&& self.protocol_version == request.protocol_version
        &&& self.ee_config == request.ee_config
    }

    /// Returns the message for a request.
    pub fn from_request(request: RunGenesisRequest<C>) -> (r: GenesisMessage<C>)
        ensures
            r.stands_for(request),
    {
        let mut genesis_config_hash: Vec<u8> = Vec::new();
        genesis_config_hash.extend_from_slice(&request.genesis_config_hash.0);
        assert(genesis_config_hash@ =~= request.genesis_config_hash.0@);
        GenesisMessage {
            genesis_config_hash,
            protocol_version: request.protocol_version,
            ee_config: request.ee_config,
        }
    }
}

impl<C> GenesisMessage<Result<C, MappingError>> {
    /// The message can be mapped to the request, or the error says why not: first a hash of the wrong
    /// length, then a configuration that cannot be understood.
    pub open spec fn gives(self, r: Result<RunGenesisRequest<C>, MappingError>) -> bool {
        if self.genesis_config_hash@.len() != 32 {
            r == Err::<RunGenesisRequest<C>, MappingError>(MappingError::TryFromSlice)
        } else {
            match self.ee_config {
                Ok(ee_config) => {
                    &&& r matches Ok(request)
                    &&& request.genesis_config_hash.0@ == self.genesis_config_hash@
                    &&& request.protocol_version == self.protocol_version
                    &&& request.ee_config == ee_config
                },
                Err(e) => r == Err::<RunGenesisRequest<C>, MappingError>(e),
            }
        }
    }

    /// Returns the request for which the message stands.
    pub fn try_into_request(self) -> (r: Result<RunGenesisRequest<C>, MappingError>)
        ensures
            self.gives(r),
    {
        if self.genesis_config_hash.len() != 32 {
            return Err(MappingError::TryFromSlice);
        }
        let mut hash = [0u8; 32];
        let mut i: usize = 0;
        while i < 32
            invariant
                i <= 32,
                self.genesis_config_hash@.len() == 32,
                forall|j: int| 0 <= j < i ==> hash@[j] == self.genesis_config_hash@[j],
            decreases 32 - i,
        {
            hash[i] = self.genesis_config_hash[i];
            i += 1;
        }
        assert(hash@ =~= self.genesis_config_hash@);
        match self.ee_config {
            Ok(ee_config) => Ok(
                RunGenesisRequest {
                    genesis_config_hash: Digest(hash),
                    protocol_version: self.protocol_version,
                    ee_config,
                },
            ),
            Err(e) => Err(e),
        }
    }
}

/// What was mapped to a message is what the message gives back.
pub proof fn law_transform_round_trip<K, T>(key: K, transform: T)
    ensures
        entry_parts(TransformEntry { key: Some(Ok::<K, ParsingError>(key)), transform: Some(Ok::<T, ParsingError>(transform)) }) == Some(
            (key, transform),
        ),
{
}

/// A request that was mapped to a message, whose configuration is understood as it was meant, is given
/// back by the message.
pub proof fn law_genesis_round_trip<C>(
    request: RunGenesisRequest<C>,
    message: GenesisMessage<C>,
    understood: GenesisMessage<Result<C, MappingError>>,
    result: Result<RunGenesisRequest<C>, MappingError>,
)
    requires
        message.stands_for(request),
        understood.genesis_config_hash@ == message.genesis_config_hash@,
        understood.protocol_version == message.protocol_version,
        understood.ee_config == Ok::<C, MappingError>(message.ee_config),
        understood.gives(result),
    ensures
        result == Ok::<RunGenesisRequest<C>, MappingError>(request),
{
    assert(result->Ok_0.genesis_config_hash.0 =~= request.genesis_config_hash.0);
}

} // verus!
