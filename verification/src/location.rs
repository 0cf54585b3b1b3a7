//! Rules on locations and their areas: what each needs to be stored, and
//! which locations may be removed.

use crate::error::{EngineError, Failure};
use crate::models::{Area, Location};
use crate::text::{blank, is_blank};
use vstd::prelude::*;

verus! {

/// Why a location named `name` cannot be stored, or `None` when it can: it
/// needs a name that is more than white space.
pub open spec fn location_complaint(name: Seq<char>) -> Option<Failure> {
    if blank(name) {
        Some(Failure::InvalidState("El nombre de la ubicación es requerido"@))
    } else {
        None
    }
}

/// Decides whether the location `location` may be stored, as a new record
/// or in place of another.
pub fn check_location(location: &Location) -> (r: Result<(), EngineError>)
    ensures
        match location_complaint(location.name@) {
            Some(failure) => r is Err && r->Err_0@ == failure,
            None => r is Ok,
        },
{
    if is_blank(location.name.as_str()) {
        Err(EngineError::invalid_state("El nombre de la ubicación es requerido"))
    } else {
        Ok(())
    }
}

/// Why the location that was found cannot be removed, or `None` when it
/// can: it must exist and must not belong to the system.
pub open spec fn removal_complaint(found: Option<Location>) -> Option<Failure> {
    match found {
        None => Some(Failure::NotFound("Location no encontrada"@)),
        Some(location) => if location.is_system {
            Some(Failure::Forbidden("No se pueden eliminar ubicaciones del sistema"@))
        } else {
            None
        },
    }
}

/// Decides whether a location may be removed, given the record that was
/// found for it.
pub fn delete_location(found: Option<&Location>) -> (r: Result<(), EngineError>)
    ensures
        match removal_complaint(
            match found {
                Some(location) => Some(*location),
                None => None,
            },
        ) {
            Some(failure) => r is Err && r->Err_0@ == failure,
            None => r is Ok,
        },
{
    match found {
        None => Err(EngineError::not_found("Location no encontrada")),
        Some(location) => {
            if location.is_system {
                Err(EngineError::forbidden("No se pueden eliminar ubicaciones del sistema"))
            } else {
                Ok(())
            }
        },
    }
}

/// Why an area named `name` in the location `location_id` cannot be stored,
/// or `None` when it can: it needs a name that is more than white space,
/// and a location.
pub open spec fn area_complaint(name: Seq<char>, location_id: i64) -> Option<Failure> {
    if blank(name) {
        Some(Failure::InvalidState("El nombre del área es requerido"@))
    } else if location_id <= 0 {
        Some(Failure::InvalidState("La ubicación es requerida"@))
    } else {
        None
    }
}

/// Decides whether the area `area` may be stored, as a new record or in
/// place of another.
pub fn check_area(area: &Area) -> (r: Result<(), EngineError>)
    ensures
        match area_complaint(area.name@, area.location_id) {
            Some(failure) => r is Err && r->Err_0@ == failure,
            None => r is Ok,
        },
{
    if is_blank(area.name.as_str()) {
        Err(EngineError::invalid_state("El nombre del área es requerido"))
    } else if area.location_id <= 0 {
        Err(EngineError::invalid_state("La ubicación es requerida"))
    } else {
        Ok(())
    }
}

} // verus!
