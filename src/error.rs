use vstd::prelude::*;

verus! {

/// The failures that the library reports to its callers.
#[derive(Debug, Clone)]
pub enum AppError {
    Io(String),
    Json(String),
    LockPoisoned,
    Config(String),
    Fetch(String),
    Validation(String),
}

impl AppError {
    /// The text shown to a user for this error.
    pub open spec fn text(&self) -> Seq<char> {
        match self {
            AppError::Io(m) => "IO error: "@ + m@,
            AppError::Json(m) => "JSON error: "@ + m@,
            AppError::LockPoisoned => "Lock poisoned"@,
            AppError::Config(m) => "Config error: "@ + m@,
            AppError::Fetch(m) => "Fetch error: "@ + m@,
            AppError::Validation(m) => "Validation error: "@ + m@,
        }
    }

    /// Whether this is a policy rejection whose reason reads `reason`.
    pub open spec fn is_rejection(&self, reason: Seq<char>) -> bool {
        match self {
            AppError::Validation(m) => m@ == reason,
            _ => false,
        }
    }

    /// The text shown to a user for this error.
    pub fn message(&self) -> (r: String)
        ensures
            r@ == self.text(),
    {
        let (head, detail) = match self {
            AppError::Io(m) => ("IO error: ", m.as_str()),
            AppError::Json(m) => ("JSON error: ", m.as_str()),
            AppError::LockPoisoned => ("Lock poisoned", ""),
            AppError::Config(m) => ("Config error: ", m.as_str()),
            AppError::Fetch(m) => ("Fetch error: ", m.as_str()),
            AppError::Validation(m) => ("Validation error: ", m.as_str()),
        };
        let mut r = String::from_str(head);
        r.append(detail);
        proof {
            reveal_strlit("");
            assert(r@ =~= self.text());
        }
        r
    }
}

} // verus!
