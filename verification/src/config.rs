//! The configuration that the service is started with and serves read-only.

use vstd::prelude::*;

verus! {

/// The value of a configuration.
pub struct ConfigData {
    pub name: Seq<char>,
    pub age: int,
}

/// The configuration of the service: set once when it starts, never changed.
#[derive(Debug, PartialEq, Eq)]
pub struct Config {
    pub name: String,
    pub age: u8,
}

impl View for Config {
    type V = ConfigData;

    open spec fn view(&self) -> ConfigData {
        ConfigData { name: self.name@, age: self.age as int }
    }
}

impl Clone for Config {
    fn clone(&self) -> (copy: Self)
        ensures
            copy@ == self@,
    {
        Config { name: self.name.clone(), age: self.age }
    }
}

} // verus!
