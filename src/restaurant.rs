//! Orders at a restaurant: public and private parts of a type.
use vstd::prelude::*;
use vstd::string::StringExecFns;

verus! {

/// A starter; both variants are public with the enum.
#[derive(Debug, Clone, Copy, PartialEq, Eq, Structural)]
pub enum Appetizer {
    Soup,
    Salad,
}

/// A breakfast: the toast is chosen by the guest, the fruit by the kitchen.
pub struct Breakfast {
    pub toast: String,
    seasonal_fruit: String,
}

impl Breakfast {
    /// The toast the guest chose.
    pub closed spec fn toast_text(&self) -> Seq<char> {
        self.toast@
    }

    /// The fruit the kitchen chose.
    pub closed spec fn fruit(&self) -> Seq<char> {
        self.seasonal_fruit@
    }

    /// A summer breakfast with the given toast and peaches.
    pub fn summer(toast: &str) -> (r: Breakfast)
        ensures
            r.toast_text() == toast@,
            r.fruit() == "peaches"@,
    {
        Breakfast { toast: String::from_str(toast), seasonal_fruit: String::from_str("peaches") }
    }
}

/// Orders a summer breakfast, changes the toast, and picks a starter.
pub fn eat_at_restaurant() {
    let mut meal = Breakfast::summer("Rye");
    meal.toast = String::from_str("Wheat");
    assert(meal.toast@ == "Wheat"@);
    assert(meal.fruit() == "peaches"@);
    let order = Appetizer::Soup;
    let order = Appetizer::Salad;
    assert(order == Appetizer::Salad);
}

} // verus!
