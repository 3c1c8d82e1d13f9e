//! Map descriptors: the fixed-layout configuration record read from a map
//! section, and the materialized map with its kernel-assigned handle.
//!
//! Creating a map in the kernel is the collaborator's work; the handle it
//! returns enters through `with_map_def`, which refuses a rejected creation
//! so that no descriptor ever carries an invalid handle.

use crate::bytes::le32_at;
use crate::bytes::read_u32;
use crate::error::Error;
use vstd::prelude::*;

verus! {

/// Byte size of the fixed-layout map configuration record.
pub const MAP_CONFIG_SIZE: usize = 20;

/// Map type tag of a plain array map, used for inline-data sections.
pub const BPF_MAP_TYPE_ARRAY: u32 = 2;

/// The fixed-layout map configuration record: five little-endian 32-bit
/// fields, in file order.
#[derive(Debug, Clone, Copy, PartialEq, Eq, Structural)]
pub struct MapConfig {
    /// Map type tag.
    pub kind: u32,
    /// Byte size of one key.
    pub key_size: u32,
    /// Byte size of one value.
    pub value_size: u32,
    /// Greatest number of entries the map may hold.
    pub max_entries: u32,
    /// Creation flags.
    pub map_flags: u32,
}

/// The configuration record stored at the start of `s`.
pub open spec fn spec_map_config_at(s: Seq<u8>) -> MapConfig {
    MapConfig {
        kind: le32_at(s, 0),
        key_size: le32_at(s, 4),
        value_size: le32_at(s, 8),
        max_entries: le32_at(s, 12),
        map_flags: le32_at(s, 16),
    }
}

/// The configuration of a single-entry array map that materializes a data
/// section of `value_size` bytes.
pub open spec fn spec_section_data_config(value_size: u32, flags: u32) -> MapConfig {
    MapConfig {
        kind: BPF_MAP_TYPE_ARRAY,
        key_size: 4u32,
        value_size,
        max_entries: 1u32,
        map_flags: flags,
    }
}

impl MapConfig {
    /// Reads the configuration record at the start of a map section's
    /// content.  Content shorter than the record is rejected.
    pub fn from_bytes(b: &[u8]) -> (r: Result<MapConfig, Error>)
        ensures
            r is Ok <==> b@.len() >= MAP_CONFIG_SIZE,
            r matches Ok(c) ==> c == spec_map_config_at(b@),
            r is Err ==> r == Result::<MapConfig, Error>::Err(Error::UnsupportedSectionKind),
    {
        let n: usize = b.len();
        if n < MAP_CONFIG_SIZE {
            return Err(Error::UnsupportedSectionKind);
        }
        Ok(MapConfig {
            kind: read_u32(b, 0),
            key_size: read_u32(b, 4),
            value_size: read_u32(b, 8),
            max_entries: read_u32(b, 12),
            map_flags: read_u32(b, 16),
        })
    }

    /// The configuration of a single-entry array map that materializes a
    /// data section of `value_size` bytes.
    pub fn section_data(value_size: u32, flags: u32) -> (r: MapConfig)
        ensures
            r == spec_section_data_config(value_size, flags),
    {
        MapConfig {
            kind: BPF_MAP_TYPE_ARRAY,
            key_size: 4,
            value_size,
            max_entries: 1,
            map_flags: flags,
        }
    }
}

/// A materialized map: its unique name, configuration and kernel handle.
pub struct MapDescriptor {
    /// The map's name: the unique key within a module.
    pub name: String,
    /// Map type tag, copied from the configuration.
    pub kind: u32,
    /// The kernel-assigned handle; set at creation, never changed.
    pub fd: i32,
    /// The configuration record the map was created from.
    pub config: MapConfig,
    /// Whether the map materializes a data section as a single-entry array
    /// (a map-value reference target rather than a map-handle one).
    pub section_data: bool,
}

impl MapDescriptor {
    /// A descriptor is well formed when its handle is a valid kernel handle
    /// and its type tag matches its configuration.
    pub open spec fn wf(self) -> bool {
        self.fd >= 0 && self.kind == self.config.kind
    }

    /// Builds the descriptor for a map created from an explicit
    /// configuration record.  A negative handle is a refused creation and
    /// aborts with `MapCreationError`.
    pub fn with_map_def(name: String, config: MapConfig, fd: i32) -> (r: Result<
        MapDescriptor,
        Error,
    >)
        ensures
            r is Ok <==> fd >= 0,
            r matches Ok(m) ==> m == (MapDescriptor {
                name,
                kind: config.kind,
                fd,
                config,
                section_data: false,
            }),
            r matches Ok(m) ==> m.wf(),
            r is Err ==> r == Result::<MapDescriptor, Error>::Err(Error::MapCreationError),
    {
        if fd < 0 {
            return Err(Error::MapCreationError);
        }
        Ok(MapDescriptor { name, kind: config.kind, fd, config, section_data: false })
    }

    /// Reads the configuration record at the start of a map section's
    /// content and builds the descriptor for the map created from it.
    pub fn load(name: String, code: &[u8], fd: i32) -> (r: Result<MapDescriptor, Error>)
        ensures
            r is Ok <==> (code@.len() >= MAP_CONFIG_SIZE && fd >= 0),
            r matches Ok(m) ==> m == (MapDescriptor {
                name,
                kind: spec_map_config_at(code@).kind,
                fd,
                config: spec_map_config_at(code@),
                section_data: false,
            }),
            code@.len() < MAP_CONFIG_SIZE ==> r == Result::<MapDescriptor, Error>::Err(
                Error::UnsupportedSectionKind,
            ),
            code@.len() >= MAP_CONFIG_SIZE && fd < 0 ==> r == Result::<MapDescriptor, Error>::Err(
                Error::MapCreationError,
            ),
    {
        let config = match MapConfig::from_bytes(code) {
            Ok(c) => c,
            Err(e) => {
                return Err(e);
            },
        };
        MapDescriptor::with_map_def(name, config, fd)
    }

    /// Builds the descriptor for a data section materialized as a
    /// single-entry array map holding `value_size` bytes.
    pub fn with_section_data(name: String, value_size: u32, flags: u32, fd: i32) -> (r: Result<
        MapDescriptor,
        Error,
    >)
        ensures
            r is Ok <==> fd >= 0,
            r matches Ok(m) ==> m == (MapDescriptor {
                name,
                kind: BPF_MAP_TYPE_ARRAY,
                fd,
                config: spec_section_data_config(value_size, flags),
                section_data: true,
            }),
            r matches Ok(m) ==> m.wf(),
            r is Err ==> r == Result::<MapDescriptor, Error>::Err(Error::MapCreationError),
    {
        if fd < 0 {
            return Err(Error::MapCreationError);
        }
        let config = MapConfig::section_data(value_size, flags);
        Ok(MapDescriptor { name, kind: config.kind, fd, config, section_data: true })
    }
}

} // verus!
