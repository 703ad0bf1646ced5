//! Verbose-mode diagnostics: the one-shot startup snapshot logged after
//! session init, which pins the environment for bug reports (build,
//! GC parameters, resolution, palette and font sources, heap size).

use crate::text::{chars_of, decimal, decimal_exec, push_all, signed_text, signed_text_exec, string_of};
use vstd::prelude::*;

verus! {

/// The environment at startup, as the snapshot reports it.
pub struct StartupSnapshot<'a> {
    pub build_profile: &'a str,
    pub platform: &'a str,
    pub gc_pause: i32,
    pub gc_stepmul: i32,
    pub gc_stepsize: i32,
    /// Game width and height in whole pixels.
    pub game_w: i32,
    pub game_h: i32,
    pub pixel_perfect: bool,
    pub sprite_size: i32,
    pub pause_menu: bool,
    pub palette_custom: bool,
    pub font_custom: bool,
    pub script_name: &'a str,
    pub lua_heap_bytes: usize,
}

/// `on` or `off`.
pub open spec fn on_off(b: bool) -> Seq<char> {
    if b {
        "on"@
    } else {
        "off"@
    }
}

/// The snapshot's log lines, in order.
pub open spec fn snapshot_lines(s: StartupSnapshot) -> Seq<Seq<char>> {
    seq![
        "-- startup snapshot --"@,
        "build "@ + s.build_profile@ + " on "@ + s.platform@,
        "gc inc pause="@ + signed_text(s.gc_pause as int) + " stepmul="@ + signed_text(
            s.gc_stepmul as int,
        ) + " stepsize="@ + signed_text(s.gc_stepsize as int),
        "resolution "@ + signed_text(s.game_w as int) + "x"@ + signed_text(s.game_h as int)
            + " pixel-perfect="@ + on_off(s.pixel_perfect) + " sprite-size="@ + signed_text(
            s.sprite_size as int,
        ),
        "pause-menu="@ + on_off(s.pause_menu) + " palette="@ + (if s.palette_custom {
            "custom"@
        } else {
            "pico-8"@
        }) + " font="@ + (if s.font_custom {
            "custom"@
        } else {
            "bundled"@
        }),
        "script="@ + s.script_name@ + " lua-heap-after-init="@ + decimal(
            (s.lua_heap_bytes / 1024) as nat,
        ) + " KB"@,
        "-- end startup snapshot --"@,
    ]
}

/// Appends the characters of a literal.
fn push_lit(v: &mut Vec<char>, lit: &str)
    ensures
        final(v)@ == old(v)@ + lit@,
{
    push_all(v, chars_of(lit).as_slice());
}

/// `on` or `off`.
fn on_off_exec(b: bool) -> (r: &'static str)
    ensures
        r@ == on_off(b),
{
    if b {
        "on"
    } else {
        "off"
    }
}

impl<'a> StartupSnapshot<'a> {
    /// The lines the startup snapshot logs.
    pub fn lines(&self) -> (r: Vec<String>)
        ensures
            r@.map_values(|l: String| l@) == snapshot_lines(*self),
    {
        let mut out: Vec<String> = Vec::new();
        out.push(string_of(chars_of("-- startup snapshot --").as_slice()));

        let mut l1 = chars_of("build ");
        push_all(&mut l1, chars_of(self.build_profile).as_slice());
        push_lit(&mut l1, " on ");
        push_all(&mut l1, chars_of(self.platform).as_slice());
        out.push(string_of(l1.as_slice()));

        let mut l2 = chars_of("gc inc pause=");
        push_all(&mut l2, signed_text_exec(self.gc_pause).as_slice());
        push_lit(&mut l2, " stepmul=");
        push_all(&mut l2, signed_text_exec(self.gc_stepmul).as_slice());
        push_lit(&mut l2, " stepsize=");
        push_all(&mut l2, signed_text_exec(self.gc_stepsize).as_slice());
        out.push(string_of(l2.as_slice()));

        let mut l3 = chars_of("resolution ");
        push_all(&mut l3, signed_text_exec(self.game_w).as_slice());
        push_lit(&mut l3, "x");
        push_all(&mut l3, signed_text_exec(self.game_h).as_slice());
        push_lit(&mut l3, " pixel-perfect=");
        push_lit(&mut l3, on_off_exec(self.pixel_perfect));
        push_lit(&mut l3, " sprite-size=");
        push_all(&mut l3, signed_text_exec(self.sprite_size).as_slice());
        out.push(string_of(l3.as_slice()));

        let mut l4 = chars_of("pause-menu=");
        push_lit(&mut l4, on_off_exec(self.pause_menu));
        push_lit(&mut l4, " palette=");
        push_lit(&mut l4, if self.palette_custom { "custom" } else { "pico-8" });
        push_lit(&mut l4, " font=");
        push_lit(&mut l4, if self.font_custom { "custom" } else { "bundled" });
        out.push(string_of(l4.as_slice()));

        let mut l5 = chars_of("script=");
        push_all(&mut l5, chars_of(self.script_name).as_slice());
        push_lit(&mut l5, " lua-heap-after-init=");
        push_all(&mut l5, decimal_exec((self.lua_heap_bytes / 1024) as u64).as_slice());
        push_lit(&mut l5, " KB");
        out.push(string_of(l5.as_slice()));

        out.push(string_of(chars_of("-- end startup snapshot --").as_slice()));
        proof {
            assert(out@.map_values(|l: String| l@) =~= snapshot_lines(*self));
        }
        out
    }
}

} // verus!
