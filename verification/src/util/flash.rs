//! Flash messages: values kept in the visitor's session for the next page
//! shown, and the list of session keys under which they were kept.

use vstd::prelude::*;
use vstd::string::*;

verus! {

/// What a flashed value is about; its name is the session key it is kept under.
#[derive(Clone, Copy, Debug, PartialEq, Eq, Structural)]
pub enum FlashType {
    CreateFormUserValues,
    Alert,
}

impl FlashType {
    pub open spec fn name(self) -> Seq<char> {
        match self {
            FlashType::CreateFormUserValues => "CreateFormUserValues"@,
            FlashType::Alert => "Alert"@,
        }
    }

    /// The session key that values of this kind are kept under.
    pub fn to_string(&self) -> (r: String)
        ensures
            r@ == self.name(),
    {
        match self {
            FlashType::CreateFormUserValues => String::from_str("CreateFormUserValues"),
            FlashType::Alert => String::from_str("Alert"),
        }
    }
}

/// The session key under which the list of flashed keys is kept.
pub open spec fn flash_keys_key_name() -> Seq<char> {
    "__flash_keys"@
}

pub fn flash_keys_key() -> (r: String)
    ensures
        r@ == flash_keys_key_name(),
{
    String::from_str("__flash_keys")
}

/// The strings of `keys`, as sequences of characters.
pub open spec fn names(keys: Seq<String>) -> Seq<Seq<char>> {
    keys.map_values(|s: String| s@)
}

/// The list of flashed keys once `key` is recorded in it: unchanged when it
/// is there already, else with `key` added at the end.
pub open spec fn with_flash_key(keys: Seq<Seq<char>>, key: Seq<char>) -> Seq<Seq<char>> {
    if keys.contains(key) {
        keys
    } else {
        keys.push(key)
    }
}

/// Records in the list of flashed keys that a value of `kind` was flashed.
pub fn register_flash_key(keys: Vec<String>, kind: FlashType) -> (r: Vec<String>)
    ensures
        names(r@) == with_flash_key(names(keys@), kind.name()),
{
    let key = kind.to_string();
    let mut i: usize = 0;
    while i < keys.len()
        invariant
            i <= keys.len(),
            key@ == kind.name(),
            forall|j: int| 0 <= j < i ==> #[trigger] keys@[j]@ != kind.name(),
        decreases keys.len() - i,
    {
        if keys[i] == key {
            proof {
                assert(names(keys@)[i as int] == kind.name());
            }
            return keys;
        }
        i += 1;
    }
    proof {
        assert forall|j: int| 0 <= j < names(keys@).len() implies #[trigger] names(keys@)[j] != kind.name() by {
            assert(keys@[j]@ != kind.name());
        }
    }
    let mut r = keys;
    let ghost before = r@;
    r.push(key);
    proof {
        assert(names(r@) =~= names(before).push(kind.name()));
    }
    r
}

/// The session keys to remove when the flashed values have been shown: each
/// flashed key, then the list itself.
pub fn keys_to_clear(keys: Vec<String>) -> (r: Vec<String>)
    ensures
        names(r@) == names(keys@).push(flash_keys_key_name()),
{
    let mut r = keys;
    let ghost before = r@;
    r.push(flash_keys_key());
    proof {
        assert(names(r@) =~= names(before).push(flash_keys_key_name()));
    }
    r
}

/// Recording a key twice is recording it once, and a list without repeated
/// keys keeps none.
pub proof fn law_flash_keys_once(keys: Seq<Seq<char>>, key: Seq<char>)
    ensures
        with_flash_key(with_flash_key(keys, key), key) == with_flash_key(keys, key),
        with_flash_key(keys, key).contains(key),
        keys.no_duplicates() ==> with_flash_key(keys, key).no_duplicates(),
{
    let once = with_flash_key(keys, key);
    if !keys.contains(key) {
        assert(once[keys.len() as int] == key);
        assert(once.contains(key));
        if keys.no_duplicates() {
            assert forall|i: int, j: int| 0 <= i < once.len() && 0 <= j < once.len() && i != j implies once[i]
                != once[j] by {
                if i == keys.len() as int {
                    assert(once[j] == keys[j]);
                } else if j == keys.len() as int {
                    assert(once[i] == keys[i]);
                } else {
                    assert(keys[i] != keys[j]);
                }
            }
        }
    }
}

/// A notice shown once at the top of the next page.
#[derive(Debug)]
pub enum Alert {
    Success(String),
    Info(String),
    Error(String),
}

impl Alert {
    /// The text of the notice.
    pub open spec fn message(self) -> Seq<char> {
        match self {
            Alert::Success(m) => m@,
            Alert::Info(m) => m@,
            Alert::Error(m) => m@,
        }
    }
}

} // verus!
