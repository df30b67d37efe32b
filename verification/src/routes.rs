//! Routes a module mounts itself: admin screens, and public endpoints.
//!
//! A resource covers list and form screens as data. A screen is the substrate
//! underneath: any routes a module wants, mounted inside the admin with the same
//! session, permission, request-token and error handling a resource gets. A public
//! route is the same idea outside the admin, for the endpoints that have to live at
//! a literal path: `/robots.txt`, a sitemap, a feed, a webhook.

use vstd::prelude::*;

use crate::strs::{
    cat3, only, strip_end, strip_start, trim_end_matches, trim_start_matches,
};
use crate::text::{Text, TextModel};

verus! {

/// A path below a base: the base itself where there is nothing below it.
pub open spec fn below(base: Seq<char>, relative: Seq<char>) -> Seq<char> {
    let b = strip_end(base, only('/'));
    let r = strip_start(relative, only('/'));
    if r.len() == 0 {
        b
    } else {
        b + "/"@ + r
    }
}

/// A path below a base: the base itself where there is nothing below it.
pub fn join(base: &str, relative: &str) -> (out: String)
    ensures
        out@ == below(base@, relative@),
{
    let base: &str = trim_end_matches(base, '/');
    let relative: &str = trim_start_matches(relative, '/');
    if relative.is_empty() {
        base.to_owned()
    } else {
        cat3(base, "/", relative)
    }
}

/// What a contributed route is given at boot.
pub struct RouteCtx {
    base_path: String,
    admin_path: String,
    base_url: String,
}

/// A [`RouteCtx`], over characters.
pub struct RouteCtxModel {
    pub base_path: Seq<char>,
    pub admin_path: Seq<char>,
    pub base_url: Seq<char>,
}

impl View for RouteCtx {
    type V = RouteCtxModel;

    closed spec fn view(&self) -> RouteCtxModel {
        RouteCtxModel {
            base_path: self.base_path@,
            admin_path: self.admin_path@,
            base_url: self.base_url@,
        }
    }
}

impl RouteCtx {
    pub fn new(base_path: &str, admin_path: &str, base_url: &str) -> (r: Self)
        ensures
            r@ == (RouteCtxModel {
                base_path: base_path@,
                admin_path: admin_path@,
                base_url: base_url@,
            }),
    {
        RouteCtx {
            base_path: base_path.to_owned(),
            admin_path: admin_path.to_owned(),
            base_url: base_url.to_owned(),
        }
    }

    /// The site's own origin, without a trailing slash: for the absolute URLs a
    /// route has to emit rather than link.
    pub fn base_url(&self) -> (r: &str)
        ensures
            r@ == self@.base_url,
    {
        self.base_url.as_str()
    }

    /// Where this screen actually mounted, after the module namespace, any base it
    /// declared, the deployment's overrides and the admin mount.
    pub fn base_path(&self) -> (r: &str)
        ensures
            r@ == self@.base_path,
    {
        self.base_path.as_str()
    }

    /// Where the admin panel is mounted. Ask rather than assuming `/admin`: an
    /// operator may have moved it.
    pub fn admin_path(&self) -> (r: &str)
        ensures
            r@ == self@.admin_path,
    {
        self.admin_path.as_str()
    }

    /// An absolute admin URL under this screen. Build every self-link this way: a
    /// deployment can move the screen, so a hardcoded path would break.
    pub fn url(&self, relative: &str) -> (r: String)
        ensures
            r@ == below(self@.base_path, relative@),
    {
        join(self.base_path.as_str(), relative)
    }
}

/// A registered screen: where it mounts, what it is called, and who may reach it.
pub struct ScreenReg {
    /// Path relative to the module's admin base, starting with a slash.
    pub base_path: String,
    /// Menu label, localized at render. `None` mounts it without a menu entry.
    pub nav_label: Option<Text>,
    /// The permission every route under this screen requires. An unguarded screen
    /// would expose whatever it serves to any signed-in operator.
    pub permission: String,
}

/// A [`ScreenReg`], over characters.
pub struct ScreenModel {
    pub base_path: Seq<char>,
    pub nav_label: Option<TextModel>,
    pub permission: Seq<char>,
}

impl DeepView for ScreenReg {
    type V = ScreenModel;

    open spec fn deep_view(&self) -> ScreenModel {
        ScreenModel {
            base_path: self.base_path@,
            nav_label: self.nav_label.deep_view(),
            permission: self.permission@,
        }
    }
}

impl ScreenReg {
    /// A screen without a menu entry.
    pub fn new(base_path: &str, permission: &str) -> (r: Self)
        ensures
            r.deep_view() == (ScreenModel {
                base_path: base_path@,
                nav_label: None,
                permission: permission@,
            }),
    {
        ScreenReg {
            base_path: base_path.to_owned(),
            nav_label: None,
            permission: permission.to_owned(),
        }
    }

    /// Shows this screen in the menu under `label`.
    pub fn in_menu(self, label: Text) -> (r: Self)
        ensures
            r.deep_view() == (ScreenModel { nav_label: Some(label@), ..self.deep_view() }),
    {
        ScreenReg {
            base_path: self.base_path,
            nav_label: Some(label),
            permission: self.permission,
        }
    }
}

/// A registered public route. The path is literal and never namespaced:
/// `/robots.txt` has to be exactly that.
pub struct PublicRouteReg {
    pub path: String,
}

impl PublicRouteReg {
    pub fn new(path: &str) -> (r: Self)
        ensures
            r.path@ == path@,
    {
        PublicRouteReg { path: path.to_owned() }
    }
}

/// A moved screen moves its links with it: what follows the screen's own path in a
/// link does not depend on where it mounted.
pub proof fn law_links_move_with_the_screen(a: Seq<char>, b: Seq<char>, relative: Seq<char>)
    ensures
        below(a, relative).skip(strip_end(a, only('/')).len() as int) == below(b, relative).skip(
            strip_end(b, only('/')).len() as int,
        ),
        strip_end(a, only('/')).is_prefix_of(below(a, relative)),
{
    let x = strip_end(a, only('/'));
    let y = strip_end(b, only('/'));
    let r = strip_start(relative, only('/'));
    if r.len() == 0 {
        assert(x.skip(x.len() as int) =~= Seq::empty());
        assert(y.skip(y.len() as int) =~= Seq::empty());
    } else {
        assert((x + "/"@ + r).skip(x.len() as int) =~= "/"@ + r);
        assert((y + "/"@ + r).skip(y.len() as int) =~= "/"@ + r);
    }
    assert(below(a, relative).take(x.len() as int) =~= x);
}

} // verus!
