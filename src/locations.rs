//! Establishments (the employer's sites) and their locations, with the patch
//! engine for each.
use vstd::prelude::*;

use crate::incidents::{if_supplied, keep_or_replace, replace_or_keep};

verus! {

/// A physical employer site.
#[derive(Debug, Clone)]
pub struct Establishment {
    pub id: i64,
    pub name: String,
    pub street_address: Option<String>,
    pub city: Option<String>,
    pub state: Option<String>,
    pub zip_code: Option<String>,
    pub industry_description: Option<String>,
    pub naics_code: Option<String>,
    pub created_at: String,
    pub updated_at: String,
}

/// The fields of a new establishment.
#[derive(Debug, Clone)]
pub struct CreateEstablishment {
    pub name: String,
    pub street_address: Option<String>,
    pub city: Option<String>,
    pub state: Option<String>,
    pub zip_code: Option<String>,
    pub industry_description: Option<String>,
    pub naics_code: Option<String>,
}

/// A sparse change to an establishment.
#[derive(Debug, Clone)]
pub struct UpdateEstablishment {
    pub name: Option<String>,
    pub street_address: Option<String>,
    pub city: Option<String>,
    pub state: Option<String>,
    pub zip_code: Option<String>,
    pub industry_description: Option<String>,
    pub naics_code: Option<String>,
}

/// A sub-site of an establishment.
#[derive(Debug, Clone)]
pub struct Location {
    pub id: i64,
    pub establishment_id: i64,
    pub name: String,
    pub address: Option<String>,
    pub city: Option<String>,
    pub state: Option<String>,
    pub is_active: bool,
    pub created_at: String,
    pub updated_at: String,
}

/// The fields of a new location.
#[derive(Debug, Clone)]
pub struct CreateLocation {
    pub establishment_id: i64,
    pub name: String,
    pub address: Option<String>,
    pub city: Option<String>,
    pub state: Option<String>,
}

/// A sparse change to a location.
#[derive(Debug, Clone)]
pub struct UpdateLocation {
    pub name: Option<String>,
    pub address: Option<String>,
    pub city: Option<String>,
    pub state: Option<String>,
    pub is_active: Option<bool>,
}

/// The record of a new establishment with store id `id`, created at `now`.
pub fn create_establishment(id: i64, data: CreateEstablishment, now: String) -> (r: Establishment)
    ensures
        r == (Establishment {
            id: id,
            name: data.name,
            street_address: data.street_address,
            city: data.city,
            state: data.state,
            zip_code: data.zip_code,
            industry_description: data.industry_description,
            naics_code: data.naics_code,
            created_at: now,
            updated_at: now,
        }),
{
    let created = now.clone();
    Establishment {
        id,
        name: data.name,
        street_address: data.street_address,
        city: data.city,
        state: data.state,
        zip_code: data.zip_code,
        industry_description: data.industry_description,
        naics_code: data.naics_code,
        created_at: created,
        updated_at: now,
    }
}

/// The record of a new location with store id `id`, created at `now`; a new
/// location is active.
pub fn create_location(id: i64, data: CreateLocation, now: String) -> (r: Location)
    ensures
        r == (Location {
            id: id,
            establishment_id: data.establishment_id,
            name: data.name,
            address: data.address,
            city: data.city,
            state: data.state,
            is_active: true,
            created_at: now,
            updated_at: now,
        }),
{
    let created = now.clone();
    Location {
        id,
        establishment_id: data.establishment_id,
        name: data.name,
        address: data.address,
        city: data.city,
        state: data.state,
        is_active: true,
        created_at: created,
        updated_at: now,
    }
}

/// The establishment patch supplies no field.
pub open spec fn establishment_patch_is_empty(p: UpdateEstablishment) -> bool {
    p.name is None && p.street_address is None && p.city is None && p.state is None
        && p.zip_code is None && p.industry_description is None && p.naics_code is None
}

/// The establishment after patch `p` at time `now`: supplied fields replace
/// the stored ones, and `updated_at` becomes `now` exactly when some field is
/// supplied.
pub open spec fn patched_establishment(x: Establishment, p: UpdateEstablishment, now: String) -> Establishment {
    Establishment {
        id: x.id,
        name: match p.name {
            Some(v) => v,
            None => x.name,
        },
        street_address: if p.street_address is Some {
            p.street_address
        } else {
            x.street_address
        },
        city: if p.city is Some {
            p.city
        } else {
            x.city
        },
        state: if p.state is Some {
            p.state
        } else {
            x.state
        },
        zip_code: if p.zip_code is Some {
            p.zip_code
        } else {
            x.zip_code
        },
        industry_description: if p.industry_description is Some {
            p.industry_description
        } else {
            x.industry_description
        },
        naics_code: if p.naics_code is Some {
            p.naics_code
        } else {
            x.naics_code
        },
        created_at: x.created_at,
        updated_at: if establishment_patch_is_empty(p) {
            x.updated_at
        } else {
            now
        },
    }
}

/// Applies a sparse patch to a stored establishment at time `now`.
pub fn update_establishment(existing: Establishment, data: UpdateEstablishment, now: String) -> (r:
    Establishment)
    ensures
        r == patched_establishment(existing, data, now),
{
    let empty = data.name.is_none() && data.street_address.is_none() && data.city.is_none()
        && data.state.is_none() && data.zip_code.is_none() && data.industry_description.is_none()
        && data.naics_code.is_none();
    let x = existing;
    let p = data;
    Establishment {
        id: x.id,
        name: replace_or_keep(p.name, x.name),
        street_address: keep_or_replace(p.street_address, x.street_address),
        city: keep_or_replace(p.city, x.city),
        state: keep_or_replace(p.state, x.state),
        zip_code: keep_or_replace(p.zip_code, x.zip_code),
        industry_description: keep_or_replace(p.industry_description, x.industry_description),
        naics_code: keep_or_replace(p.naics_code, x.naics_code),
        created_at: x.created_at,
        updated_at: if_supplied(empty, x.updated_at, now),
    }
}

/// The location patch supplies no field.
pub open spec fn location_patch_is_empty(p: UpdateLocation) -> bool {
    p.name is None && p.address is None && p.city is None && p.state is None && p.is_active is None
}

/// The location after patch `p` at time `now`: supplied fields replace the
/// stored ones, and `updated_at` becomes `now` exactly when some field is
/// supplied.
pub open spec fn patched_location(x: Location, p: UpdateLocation, now: String) -> Location {
    Location {
        id: x.id,
        establishment_id: x.establishment_id,
        name: match p.name {
            Some(v) => v,
            None => x.name,
        },
        address: if p.address is Some {
            p.address
        } else {
            x.address
        },
        city: if p.city is Some {
            p.city
        } else {
            x.city
        },
        state: if p.state is Some {
            p.state
        } else {
            x.state
        },
        is_active: match p.is_active {
            Some(v) => v,
            None => x.is_active,
        },
        created_at: x.created_at,
        updated_at: if location_patch_is_empty(p) {
            x.updated_at
        } else {
            now
        },
    }
}

/// Applies a sparse patch to a stored location at time `now`.
pub fn update_location(existing: Location, data: UpdateLocation, now: String) -> (r: Location)
    ensures
        r == patched_location(existing, data, now),
{
    let empty = data.name.is_none() && data.address.is_none() && data.city.is_none()
        && data.state.is_none() && data.is_active.is_none();
    let x = existing;
    let p = data;
    Location {
        id: x.id,
        establishment_id: x.establishment_id,
        name: replace_or_keep(p.name, x.name),
        address: keep_or_replace(p.address, x.address),
        city: keep_or_replace(p.city, x.city),
        state: keep_or_replace(p.state, x.state),
        is_active: replace_or_keep(p.is_active, x.is_active),
        created_at: x.created_at,
        updated_at: if_supplied(empty, x.updated_at, now),
    }
}

} // verus!
