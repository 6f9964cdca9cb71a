//! Colours with integer red, green and blue channels.
use vstd::prelude::*;
use crate::points::fits_i64;

verus! {

/// A colour.
#[derive(Clone, Copy)]
pub struct Color {
    pub red: i64,
    pub green: i64,
    pub blue: i64,
}

impl Color {
    /// The colour with the given channels.
    pub fn new(red: i64, green: i64, blue: i64) -> (r: Color)
        ensures
            r == (Color { red, green, blue }),
    {
        Color { red, green, blue }
    }

    /// Full red.
    pub fn from_red() -> (r: Color)
        ensures
            r == (Color { red: 255, green: 0, blue: 0 }),
    {
        Color::new(255, 0, 0)
    }

    /// Full green.
    pub fn from_green() -> (r: Color)
        ensures
            r == (Color { red: 0, green: 255, blue: 0 }),
    {
        Color::new(0, 255, 0)
    }

    /// Full blue.
    pub fn from_blue() -> (r: Color)
        ensures
            r == (Color { red: 0, green: 0, blue: 255 }),
    {
        Color::new(0, 0, 255)
    }

    /// Black.
    pub fn zero() -> (r: Color)
        ensures
            r == (Color { red: 0, green: 0, blue: 0 }),
    {
        Color::new(0, 0, 0)
    }

    /// Subtracts `color` channel by channel.
    pub fn subtract(&mut self, color: &Color)
        requires
            fits_i64(old(self).red - color.red),
            fits_i64(old(self).green - color.green),
            fits_i64(old(self).blue - color.blue),
        ensures
            final(self).red == old(self).red - color.red,
            final(self).green == old(self).green - color.green,
            final(self).blue == old(self).blue - color.blue,
    {
        self.green = self.green - color.green;
        self.red = self.red - color.red;
        self.blue = self.blue - color.blue;
    }

    /// Adds `color` channel by channel.
    pub fn add(&mut self, color: &Color)
        requires
            fits_i64(old(self).red + color.red),
            fits_i64(old(self).green + color.green),
            fits_i64(old(self).blue + color.blue),
        ensures
            final(self).red == old(self).red + color.red,
            final(self).green == old(self).green + color.green,
            final(self).blue == old(self).blue + color.blue,
    {
        self.green = self.green + color.green;
        self.red = self.red + color.red;
        self.blue = self.blue + color.blue;
    }

    /// Multiplies by `color` channel by channel (the Hadamard product).
    pub fn haramard_product(&mut self, color: &Color)
        requires
            fits_i64(old(self).red * color.red),
            fits_i64(old(self).green * color.green),
            fits_i64(old(self).blue * color.blue),
        ensures
            final(self).red == old(self).red * color.red,
            final(self).green == old(self).green * color.green,
            final(self).blue == old(self).blue * color.blue,
    {
        self.green = self.green * color.green;
        self.red = self.red * color.red;
        self.blue = self.blue * color.blue;
    }
}

} // verus!
