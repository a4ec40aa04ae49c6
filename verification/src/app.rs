//! The application's composition root. The process wiring (listener, router,
//! logging) lives outside the library; what the routes compute lives here.

use vstd::prelude::*;
use vstd::string::*;

verus! {

pub struct App;

impl App {
    /// The body served by the placeholder route.
    pub fn hello() -> (r: String)
        ensures
            r@ == "Hello World!"@,
    {
        String::from_str("Hello World!")
    }
}

} // verus!
