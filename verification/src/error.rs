//! Session-level errors and safety-interlock violations.

use vstd::prelude::*;
use crate::kwp::{kwp_message, KwpError};

verus! {

/// Why a safety interlock blocked an operation. Measured values and limits
/// are carried as the text they are shown as ("1250", "11.4").
#[derive(Debug, Clone, PartialEq, Eq)]
pub enum SafetyViolation {
    ServiceModeDisabled,
    ConfirmationRequired,
    EngineRunning { rpm: String },
    EngineStateUnknown,
    BatteryOutOfRange { measured: String, min: String, max: String },
    BatteryUnknown,
}

pub open spec fn safety_message(v: SafetyViolation) -> Seq<char> {
    match v {
        SafetyViolation::ServiceModeDisabled => "service mode is not enabled; this session is read-only"@,
        SafetyViolation::ConfirmationRequired => "operation requires explicit confirmation"@,
        SafetyViolation::EngineRunning { rpm } => "engine must be off (measured "@ + rpm@ + " rpm)"@,
        SafetyViolation::EngineStateUnknown => "engine state unknown: no RPM channel available to verify engine is off"@,
        SafetyViolation::BatteryOutOfRange { measured, min, max } => "battery voltage "@ + measured@
            + " V outside allowed range "@ + min@ + "–"@ + max@ + " V"@,
        SafetyViolation::BatteryUnknown => "battery voltage unknown: no battery channel available to verify"@,
    }
}

impl SafetyViolation {
    /// The violation in words.
    pub fn message(&self) -> (s: String)
        ensures
            s@ == safety_message(*self),
    {
        match self {
            SafetyViolation::ServiceModeDisabled => String::from_str(
                "service mode is not enabled; this session is read-only",
            ),
            SafetyViolation::ConfirmationRequired => String::from_str(
                "operation requires explicit confirmation",
            ),
            SafetyViolation::EngineRunning { rpm } => {
                let mut s = String::from_str("engine must be off (measured ");
                s.append(rpm.as_str());
                s.append(" rpm)");
                s
            },
            SafetyViolation::EngineStateUnknown => String::from_str(
                "engine state unknown: no RPM channel available to verify engine is off",
            ),
            SafetyViolation::BatteryOutOfRange { measured, min, max } => {
                let mut s = String::from_str("battery voltage ");
                s.append(measured.as_str());
                s.append(" V outside allowed range ");
                s.append(min.as_str());
                s.append("–");
                s.append(max.as_str());
                s.append(" V");
                s
            },
            SafetyViolation::BatteryUnknown => String::from_str(
                "battery voltage unknown: no battery channel available to verify",
            ),
        }
    }
}

#[derive(Debug, Clone, PartialEq, Eq)]
pub enum AppError {
    Kwp(KwpError),
    /// Loading or validating definitions failed; the text says how.
    Defs(String),
    Safety(SafetyViolation),
    UnknownChannel(String),
    UnknownRoutine(String),
    NotKLine(String),
    Io(String),
}

pub open spec fn app_message(e: AppError) -> Seq<char> {
    match e {
        AppError::Kwp(k) => kwp_message(k),
        AppError::Defs(m) => m@,
        AppError::Safety(v) => "blocked by safety interlock: "@ + safety_message(v),
        AppError::UnknownChannel(k) => "unknown channel '"@ + k@ + "' for this ECU"@,
        AppError::UnknownRoutine(k) => "unknown routine '"@ + k@ + "' for this ECU"@,
        AppError::NotKLine(id) => "'"@ + id@
            + "' is a CAN-bus ECU definition; DiagSession only supports K-line/KWP2000 so far"@,
        AppError::Io(m) => "I/O error: "@ + m@,
    }
}

impl AppError {
    /// The error in words, as the UI and bug reports show it.
    pub fn message(&self) -> (s: String)
        ensures
            s@ == app_message(*self),
    {
        match self {
            AppError::Kwp(k) => k.message(),
            AppError::Defs(m) => m.clone(),
            AppError::Safety(v) => {
                let mut s = String::from_str("blocked by safety interlock: ");
                let t = v.message();
                s.append(t.as_str());
                s
            },
            AppError::UnknownChannel(k) => {
                let mut s = String::from_str("unknown channel '");
                s.append(k.as_str());
                s.append("' for this ECU");
                s
            },
            AppError::UnknownRoutine(k) => {
                let mut s = String::from_str("unknown routine '");
                s.append(k.as_str());
                s.append("' for this ECU");
                s
            },
            AppError::NotKLine(id) => {
                let mut s = String::from_str("'");
                s.append(id.as_str());
                s.append(
                    "' is a CAN-bus ECU definition; DiagSession only supports K-line/KWP2000 so far",
                );
                s
            },
            AppError::Io(m) => {
                let mut s = String::from_str("I/O error: ");
                s.append(m.as_str());
                s
            },
        }
    }
}

/// Why reading the vacuum gauge failed.
#[derive(Debug, Clone, PartialEq, Eq)]
pub enum VacuumError {
    Io(String),
    Timeout,
    Closed,
}

pub open spec fn vacuum_message(e: VacuumError) -> Seq<char> {
    match e {
        VacuumError::Io(m) => "I/O error: "@ + m@,
        VacuumError::Timeout => "timed out waiting for a sample"@,
        VacuumError::Closed => "gauge disconnected"@,
    }
}

impl VacuumError {
    /// The error in words.
    pub fn message(&self) -> (s: String)
        ensures
            s@ == vacuum_message(*self),
    {
        match self {
            VacuumError::Io(m) => {
                let mut s = String::from_str("I/O error: ");
                s.append(m.as_str());
                s
            },
            VacuumError::Timeout => String::from_str("timed out waiting for a sample"),
            VacuumError::Closed => String::from_str("gauge disconnected"),
        }
    }
}

} // verus!
