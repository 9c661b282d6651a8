//! The errors that a verb can answer with, and their messages.
use vstd::prelude::*;
use vstd::string::StringExecFns;

verus! {

/// The decimal digits of `n`.
pub open spec fn decimal_text(n: u64) -> Seq<char>
    decreases n,
{
    let digit = seq![(('0' as u8) + ((n % 10) as u8)) as char];
    if n < 10 {
        digit
    } else {
        decimal_text(n / 10) + digit
    }
}

/// The digit `d`, as text.
fn digit(d: u64) -> (r: String)
    requires
        d < 10,
    ensures
        r@ == seq![(('0' as u8) + (d as u8)) as char],
{
    match d {
        0 => {
            proof {
                reveal_strlit("0");
            }
            String::from_str("0")
        },
        1 => {
            proof {
                reveal_strlit("1");
            }
            String::from_str("1")
        },
        2 => {
            proof {
                reveal_strlit("2");
            }
            String::from_str("2")
        },
        3 => {
            proof {
                reveal_strlit("3");
            }
            String::from_str("3")
        },
        4 => {
            proof {
                reveal_strlit("4");
            }
            String::from_str("4")
        },
        5 => {
            proof {
                reveal_strlit("5");
            }
            String::from_str("5")
        },
        6 => {
            proof {
                reveal_strlit("6");
            }
            String::from_str("6")
        },
        7 => {
            proof {
                reveal_strlit("7");
            }
            String::from_str("7")
        },
        8 => {
            proof {
                reveal_strlit("8");
            }
            String::from_str("8")
        },
        _ => {
            proof {
                reveal_strlit("9");
            }
            String::from_str("9")
        },
    }
}

/// The decimal digits of `n`, as text.
fn decimal(n: u64) -> (r: String)
    ensures
        r@ == decimal_text(n),
    decreases n,
{
    if n < 10 {
        digit(n)
    } else {
        let last = digit(n % 10);
        decimal(n / 10).concat(last.as_str())
    }
}

/// Why a request was answered with an error.
#[derive(Debug)]
pub enum VerbError {
    /// No verb of this name is registered.
    UnknownVerb(String),
    /// No object has this handle.
    NoSuchEntity(u64),
    /// The object exists but lacks the component at this type path.
    NoSuchComponent(u64, String),
    /// Every handle has been handed out.
    HandlesExhausted,
    /// The parameters lack the named field, or it has the wrong shape.
    InvalidParams(String),
}

impl VerbError {
    /// The text sent back in the `message` field of an error response.
    pub open spec fn message_text(&self) -> Seq<char> {
        match self {
            VerbError::UnknownVerb(name) => "Unknown verb: "@ + name@,
            VerbError::NoSuchEntity(e) => "No such entity: "@ + decimal_text(*e),
            VerbError::NoSuchComponent(e, path) => "Entity "@ + decimal_text(*e)
                + " has no component "@ + path@,
            VerbError::HandlesExhausted => "No entity handles are left"@,
            VerbError::InvalidParams(field) => "Missing or malformed parameter: "@ + field@,
        }
    }

    /// The message of this error.
    pub fn message(&self) -> (r: String)
        ensures
            r@ == self.message_text(),
    {
        match self {
            VerbError::UnknownVerb(name) => String::from_str("Unknown verb: ").concat(name.as_str()),
            VerbError::NoSuchEntity(e) => String::from_str("No such entity: ").concat(
                decimal(*e).as_str(),
            ),
            VerbError::NoSuchComponent(e, path) => {
                let s = String::from_str("Entity ").concat(decimal(*e).as_str());
                s.concat(" has no component ").concat(path.as_str())
            },
            VerbError::HandlesExhausted => String::from_str("No entity handles are left"),
            VerbError::InvalidParams(field) => String::from_str(
                "Missing or malformed parameter: ",
            ).concat(field.as_str()),
        }
    }
}

} // verus!
