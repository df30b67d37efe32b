//! Icons by name: a reference into the sprite, or a visible mark for a name that
//! nobody registered.

use vstd::prelude::*;
use vstd::string::StringExecFns;

use crate::strs::{cat3, cat4, join, joined, listed};

verus! {

/// Shown when a name does not resolve: a dashed square with a question mark. It
/// is deliberately not a plausible icon.
pub const MISSING: &'static str = "<svg class=\"lat-icon lat-icon--missing\" viewBox=\"0 0 24 24\" fill=\"none\" stroke=\"currentColor\" stroke-width=\"2\" stroke-linecap=\"round\" stroke-linejoin=\"round\" aria-hidden=\"true\" focusable=\"false\"><rect x=\"3\" y=\"3\" width=\"18\" height=\"18\" rx=\"2\" stroke-dasharray=\"3 3\"/><path d=\"M9.1 9a3 3 0 0 1 5.8 1c0 2-3 3-3 3\"/><path d=\"M12 17h.01\"/></svg>";

/// The names the sprite holds a glyph for.
pub struct IconSet {
    pub names: Vec<String>,
}

impl View for IconSet {
    type V = Seq<Seq<char>>;

    open spec fn view(&self) -> Seq<Seq<char>> {
        self.names.deep_view()
    }
}

/// The icon set together with where its sprite is served.
pub struct Icons<'a> {
    pub set: &'a IconSet,
    pub sprite: &'a str,
}

/// Markup that references a glyph of the sprite.
pub open spec fn glyph(sprite: Seq<char>, name: Seq<char>) -> Seq<char> {
    "<svg class=\"lat-icon\" aria-hidden=\"true\" focusable=\"false\"><use href=\""@ + sprite
        + "#lat-"@ + name + "\"/></svg>"@
}

/// Markup for an icon: nothing where none is named, a reference where the name
/// is known, the missing mark where it is not.
pub open spec fn icon_markup(
    names: Seq<Seq<char>>,
    sprite: Seq<char>,
    name: Option<Seq<char>>,
) -> Seq<char> {
    match name {
        Some(n) => if names.contains(n) {
            glyph(sprite, n)
        } else {
            MISSING@
        },
        None => Seq::empty(),
    }
}

impl<'a> Icons<'a> {
    pub fn new(set: &'a IconSet, sprite: &'a str) -> (r: Icons<'a>)
        ensures
            r.set == set,
            r.sprite == sprite,
    {
        Icons { set, sprite }
    }

    /// Markup for a name, or the missing mark.
    pub fn render(&self, name: Option<&str>) -> (r: String)
        ensures
            r@ == icon_markup(self.set@, self.sprite@, name.deep_view()),
    {
        svg(self.set, self.sprite, name)
    }
}

/// Markup for an icon name: a reference into the sprite. An unknown name yields
/// the missing mark rather than a plausible glyph.
pub fn svg(set: &IconSet, sprite_url: &str, name: Option<&str>) -> (r: String)
    ensures
        r@ == icon_markup(set@, sprite_url@, name.deep_view()),
{
    match name {
        Some(n) => {
            if listed(&set.names, n) {
                let mut r: String = cat4(
                    "<svg class=\"lat-icon\" aria-hidden=\"true\" focusable=\"false\"><use href=\"",
                    sprite_url,
                    "#lat-",
                    n,
                );
                r.append("\"/></svg>");
                r
            } else {
                MISSING.to_owned()
            }
        },
        None => String::new(),
    }
}

/// The refusal of an icon name nobody registered, with the names that were
/// probably meant.
pub open spec fn icon_refusal(
    what: Seq<char>,
    name: Seq<char>,
    nearest: Seq<Seq<char>>,
) -> Seq<char> {
    let hint = if nearest.len() == 0 {
        Seq::empty()
    } else {
        "; did you mean "@ + joined(nearest, ", "@) + "?"@
    };
    what + " names the icon `"@ + name + "`, which is not in the set"@ + hint
        + " See docs/src/reference/icons.md for the full list, or register your own with `add_icon`."@
}

/// Checks a descriptor's icon name at boot. `what` names the thing that declared
/// it, and `nearest` holds the registered names closest to it.
pub fn require(set: &IconSet, what: &str, name: Option<&str>, nearest: &Vec<String>) -> (r: Result<
    (),
    String,
>)
    ensures
        match name.deep_view() {
            None => r is Ok,
            Some(n) => if set@.contains(n) {
                r is Ok
            } else {
                r is Err && r->Err_0@ == icon_refusal(what@, n, nearest.deep_view())
            },
        },
{
    let n: &str = match name {
        Some(n) => n,
        None => {
            return Ok(());
        },
    };
    if listed(&set.names, n) {
        return Ok(());
    }
    let hint: String = if nearest.len() == 0 {
        String::new()
    } else {
        cat3("; did you mean ", join(nearest, ", ").as_str(), "?")
    };
    let mut message: String = cat4(
        what,
        " names the icon `",
        n,
        "`, which is not in the set",
    );
    message.append(hint.as_str());
    message.append(
        " See docs/src/reference/icons.md for the full list, or register your own with `add_icon`.",
    );
    Err(message)
}

} // verus!
