//! Positions of a pointer, in whole pixels, in the four coordinate spaces
//! of a page.
use vstd::prelude::*;

verus! {

/// A position relative to the viewport.
#[derive(Clone, Copy, Debug, PartialEq, Eq, Structural)]
pub struct ClientPoint {
    pub x: i32,
    pub y: i32,
}

/// A position relative to the padding edge of the target element.
#[derive(Clone, Copy, Debug, PartialEq, Eq, Structural)]
pub struct ElementPoint {
    pub x: i32,
    pub y: i32,
}

/// A position relative to the whole document.
#[derive(Clone, Copy, Debug, PartialEq, Eq, Structural)]
pub struct PagePoint {
    pub x: i32,
    pub y: i32,
}

/// A position relative to the whole screen.
#[derive(Clone, Copy, Debug, PartialEq, Eq, Structural)]
pub struct ScreenPoint {
    pub x: i32,
    pub y: i32,
}

/// One position in all four coordinate spaces.
#[derive(Clone, Copy, Debug, PartialEq, Eq, Structural)]
pub struct Coordinates {
    pub screen: ScreenPoint,
    pub client: ClientPoint,
    pub element: ElementPoint,
    pub page: PagePoint,
}

impl Coordinates {
    /// The position given in each space.
    pub fn new(
        screen: ScreenPoint,
        client: ClientPoint,
        element: ElementPoint,
        page: PagePoint,
    ) -> (coordinates: Coordinates)
        ensures
            coordinates == (Coordinates { screen, client, element, page }),
    {
        Coordinates { screen, client, element, page }
    }

    /// The position relative to the screen.
    pub fn screen(&self) -> (point: ScreenPoint)
        ensures
            point == self.screen,
    {
        self.screen
    }

    /// The position relative to the viewport.
    pub fn client(&self) -> (point: ClientPoint)
        ensures
            point == self.client,
    {
        self.client
    }

    /// The position relative to the target element.
    pub fn element(&self) -> (point: ElementPoint)
        ensures
            point == self.element,
    {
        self.element
    }

    /// The position relative to the document.
    pub fn page(&self) -> (point: PagePoint)
        ensures
            point == self.page,
    {
        self.page
    }
}

} // verus!
