//! What the shorthands of boxes, lines and flex items stand for.
use crate::css::number::{NumberModel, Scale};
use crate::css::shorthand::{self, DeclarationModel};
use crate::css::value::{self, Unit, ValueModel};
use vstd::prelude::*;

verus! {

/// A declaration that is not important.
pub open spec fn says(name: Seq<char>, value: ValueModel) -> DeclarationModel {
    DeclarationModel { name, value, important: false }
}

/// `margin` sets the four sides, clockwise from the top: one value is
/// for all, the second of two or more for the neighbours of the first, the
/// third for its opposite, the fourth for the last. More than four set nothing.
pub proof fn law_margin_goes_round(c: Seq<ValueModel>)
    ensures
        c.len() == 1 ==> shorthand::expansion("margin"@, c) == seq![
            says("margin-top"@, c[0]),
            says("margin-right"@, c[0]),
            says("margin-bottom"@, c[0]),
            says("margin-left"@, c[0]),
        ],
        c.len() == 2 ==> shorthand::expansion("margin"@, c) == seq![
            says("margin-top"@, c[0]),
            says("margin-right"@, c[1]),
            says("margin-bottom"@, c[0]),
            says("margin-left"@, c[1]),
        ],
        c.len() == 3 ==> shorthand::expansion("margin"@, c) == seq![
            says("margin-top"@, c[0]),
            says("margin-right"@, c[1]),
            says("margin-bottom"@, c[2]),
            says("margin-left"@, c[1]),
        ],
        c.len() == 4 ==> shorthand::expansion("margin"@, c) == seq![
            says("margin-top"@, c[0]),
            says("margin-right"@, c[1]),
            says("margin-bottom"@, c[2]),
            says("margin-left"@, c[3]),
        ],
        c.len() > 4 ==> shorthand::expansion("margin"@, c).len() == 0,
{
    reveal_strlit("margin");
    reveal_strlit("top");
    reveal_strlit("right");
    reveal_strlit("bottom");
    reveal_strlit("left");
    reveal_strlit("margin-");
    reveal_strlit("");
    reveal_strlit("margin-top");
    reveal_strlit("margin-right");
    reveal_strlit("margin-bottom");
    reveal_strlit("margin-left");
    reveal_strlit("-");
    assert("margin"@.len() == 6);
    assert("top"@.len() == 3);
    assert("right"@.len() == 5);
    assert("bottom"@.len() == 6);
    assert("left"@.len() == 4);
    assert("margin-"@.len() == 7);
    assert(""@.len() == 0);
    assert("margin-top"@.len() == 10);
    assert("margin-right"@.len() == 12);
    assert("margin-bottom"@.len() == 13);
    assert("margin-left"@.len() == 11);
    assert("-"@.len() == 1);
    assert("margin"@[0] == 'm');
    assert("bottom"@[0] == 'b');
    assert(("margin"@ + "-"@) + "top"@ + ""@ =~= "margin-top"@);
    assert(("margin"@ + "-"@) + "right"@ + ""@ =~= "margin-right"@);
    assert(("margin"@ + "-"@) + "bottom"@ + ""@ =~= "margin-bottom"@);
    assert(("margin"@ + "-"@) + "left"@ + ""@ =~= "margin-left"@);
}

/// `padding` sets the four sides, clockwise from the top: one value is
/// for all, the second of two or more for the neighbours of the first, the
/// third for its opposite, the fourth for the last. More than four set nothing.
pub proof fn law_padding_goes_round(c: Seq<ValueModel>)
    ensures
        c.len() == 1 ==> shorthand::expansion("padding"@, c) == seq![
            says("padding-top"@, c[0]),
            says("padding-right"@, c[0]),
            says("padding-bottom"@, c[0]),
            says("padding-left"@, c[0]),
        ],
        c.len() == 2 ==> shorthand::expansion("padding"@, c) == seq![
            says("padding-top"@, c[0]),
            says("padding-right"@, c[1]),
            says("padding-bottom"@, c[0]),
            says("padding-left"@, c[1]),
        ],
        c.len() == 3 ==> shorthand::expansion("padding"@, c) == seq![
            says("padding-top"@, c[0]),
            says("padding-right"@, c[1]),
            says("padding-bottom"@, c[2]),
            says("padding-left"@, c[1]),
        ],
        c.len() == 4 ==> shorthand::expansion("padding"@, c) == seq![
            says("padding-top"@, c[0]),
            says("padding-right"@, c[1]),
            says("padding-bottom"@, c[2]),
            says("padding-left"@, c[3]),
        ],
        c.len() > 4 ==> shorthand::expansion("padding"@, c).len() == 0,
{
    reveal_strlit("padding");
    reveal_strlit("margin");
    reveal_strlit("top");
    reveal_strlit("right");
    reveal_strlit("bottom");
    reveal_strlit("left");
    reveal_strlit("padding-");
    reveal_strlit("");
    reveal_strlit("padding-top");
    reveal_strlit("padding-right");
    reveal_strlit("padding-bottom");
    reveal_strlit("padding-left");
    reveal_strlit("-");
    assert("padding"@.len() == 7);
    assert("margin"@.len() == 6);
    assert("top"@.len() == 3);
    assert("right"@.len() == 5);
    assert("bottom"@.len() == 6);
    assert("left"@.len() == 4);
    assert("padding-"@.len() == 8);
    assert(""@.len() == 0);
    assert("padding-top"@.len() == 11);
    assert("padding-right"@.len() == 13);
    assert("padding-bottom"@.len() == 14);
    assert("padding-left"@.len() == 12);
    assert("-"@.len() == 1);
    assert(("padding"@ + "-"@) + "top"@ + ""@ =~= "padding-top"@);
    assert(("padding"@ + "-"@) + "right"@ + ""@ =~= "padding-right"@);
    assert(("padding"@ + "-"@) + "bottom"@ + ""@ =~= "padding-bottom"@);
    assert(("padding"@ + "-"@) + "left"@ + ""@ =~= "padding-left"@);
}

/// `inset` sets the four sides, clockwise from the top: one value is
/// for all, the second of two or more for the neighbours of the first, the
/// third for its opposite, the fourth for the last. More than four set nothing.
pub proof fn law_inset_goes_round(c: Seq<ValueModel>)
    ensures
        c.len() == 1 ==> shorthand::expansion("inset"@, c) == seq![
            says("top"@, c[0]),
            says("right"@, c[0]),
            says("bottom"@, c[0]),
            says("left"@, c[0]),
        ],
        c.len() == 2 ==> shorthand::expansion("inset"@, c) == seq![
            says("top"@, c[0]),
            says("right"@, c[1]),
            says("bottom"@, c[0]),
            says("left"@, c[1]),
        ],
        c.len() == 3 ==> shorthand::expansion("inset"@, c) == seq![
            says("top"@, c[0]),
            says("right"@, c[1]),
            says("bottom"@, c[2]),
            says("left"@, c[1]),
        ],
        c.len() == 4 ==> shorthand::expansion("inset"@, c) == seq![
            says("top"@, c[0]),
            says("right"@, c[1]),
            says("bottom"@, c[2]),
            says("left"@, c[3]),
        ],
        c.len() > 4 ==> shorthand::expansion("inset"@, c).len() == 0,
{
    reveal_strlit("inset");
    reveal_strlit("margin");
    reveal_strlit("padding");
    reveal_strlit("top");
    reveal_strlit("right");
    reveal_strlit("bottom");
    reveal_strlit("left");
    reveal_strlit("");
    assert("inset"@.len() == 5);
    assert("margin"@.len() == 6);
    assert("padding"@.len() == 7);
    assert("top"@.len() == 3);
    assert("right"@.len() == 5);
    assert("bottom"@.len() == 6);
    assert("left"@.len() == 4);
    assert(""@.len() == 0);
    assert("inset"@[0] == 'i');
    assert("right"@[0] == 'r');
    assert(""@ + "top"@ + ""@ =~= "top"@);
    assert(""@ + "right"@ + ""@ =~= "right"@);
    assert(""@ + "bottom"@ + ""@ =~= "bottom"@);
    assert(""@ + "left"@ + ""@ =~= "left"@);
}

/// `border-width` sets the four sides, clockwise from the top: one value is
/// for all, the second of two or more for the neighbours of the first, the
/// third for its opposite, the fourth for the last. More than four set nothing.
pub proof fn law_border_width_goes_round(c: Seq<ValueModel>)
    ensures
        c.len() == 1 ==> shorthand::expansion("border-width"@, c) == seq![
            says("border-top-width"@, c[0]),
            says("border-right-width"@, c[0]),
            says("border-bottom-width"@, c[0]),
            says("border-left-width"@, c[0]),
        ],
        c.len() == 2 ==> shorthand::expansion("border-width"@, c) == seq![
            says("border-top-width"@, c[0]),
            says("border-right-width"@, c[1]),
            says("border-bottom-width"@, c[0]),
            says("border-left-width"@, c[1]),
        ],
        c.len() == 3 ==> shorthand::expansion("border-width"@, c) == seq![
            says("border-top-width"@, c[0]),
            says("border-right-width"@, c[1]),
            says("border-bottom-width"@, c[2]),
            says("border-left-width"@, c[1]),
        ],
        c.len() == 4 ==> shorthand::expansion("border-width"@, c) == seq![
            says("border-top-width"@, c[0]),
            says("border-right-width"@, c[1]),
            says("border-bottom-width"@, c[2]),
            says("border-left-width"@, c[3]),
        ],
        c.len() > 4 ==> shorthand::expansion("border-width"@, c).len() == 0,
{
    reveal_strlit("border-width");
    reveal_strlit("margin");
    reveal_strlit("padding");
    reveal_strlit("inset");
    reveal_strlit("top");
    reveal_strlit("right");
    reveal_strlit("bottom");
    reveal_strlit("left");
    reveal_strlit("border-");
    reveal_strlit("-width");
    reveal_strlit("border-top-width");
    reveal_strlit("border-right-width");
    reveal_strlit("border-bottom-width");
    reveal_strlit("border-left-width");
    assert("border-width"@.len() == 12);
    assert("margin"@.len() == 6);
    assert("padding"@.len() == 7);
    assert("inset"@.len() == 5);
    assert("top"@.len() == 3);
    assert("right"@.len() == 5);
    assert("bottom"@.len() == 6);
    assert("left"@.len() == 4);
    assert("border-"@.len() == 7);
    assert("-width"@.len() == 6);
    assert("border-top-width"@.len() == 16);
    assert("border-right-width"@.len() == 18);
    assert("border-bottom-width"@.len() == 19);
    assert("border-left-width"@.len() == 17);
    assert("border-"@ + "top"@ + "-width"@ =~= "border-top-width"@);
    assert("border-"@ + "right"@ + "-width"@ =~= "border-right-width"@);
    assert("border-"@ + "bottom"@ + "-width"@ =~= "border-bottom-width"@);
    assert("border-"@ + "left"@ + "-width"@ =~= "border-left-width"@);
}

/// `border-style` sets the four sides, clockwise from the top: one value is
/// for all, the second of two or more for the neighbours of the first, the
/// third for its opposite, the fourth for the last. More than four set nothing.
pub proof fn law_border_style_goes_round(c: Seq<ValueModel>)
    ensures
        c.len() == 1 ==> shorthand::expansion("border-style"@, c) == seq![
            says("border-top-style"@, c[0]),
            says("border-right-style"@, c[0]),
            says("border-bottom-style"@, c[0]),
            says("border-left-style"@, c[0]),
        ],
        c.len() == 2 ==> shorthand::expansion("border-style"@, c) == seq![
            says("border-top-style"@, c[0]),
            says("border-right-style"@, c[1]),
            says("border-bottom-style"@, c[0]),
            says("border-left-style"@, c[1]),
        ],
        c.len() == 3 ==> shorthand::expansion("border-style"@, c) == seq![
            says("border-top-style"@, c[0]),
            says("border-right-style"@, c[1]),
            says("border-bottom-style"@, c[2]),
            says("border-left-style"@, c[1]),
        ],
        c.len() == 4 ==> shorthand::expansion("border-style"@, c) == seq![
            says("border-top-style"@, c[0]),
            says("border-right-style"@, c[1]),
            says("border-bottom-style"@, c[2]),
            says("border-left-style"@, c[3]),
        ],
        c.len() > 4 ==> shorthand::expansion("border-style"@, c).len() == 0,
{
    reveal_strlit("border-style");
    reveal_strlit("margin");
    reveal_strlit("padding");
    reveal_strlit("inset");
    reveal_strlit("border-width");
    reveal_strlit("top");
    reveal_strlit("right");
    reveal_strlit("bottom");
    reveal_strlit("left");
    reveal_strlit("border-");
    reveal_strlit("-style");
    reveal_strlit("border-top-style");
    reveal_strlit("border-right-style");
    reveal_strlit("border-bottom-style");
    reveal_strlit("border-left-style");
    assert("border-style"@.len() == 12);
    assert("margin"@.len() == 6);
    assert("padding"@.len() == 7);
    assert("inset"@.len() == 5);
    assert("border-width"@.len() == 12);
    assert("top"@.len() == 3);
    assert("right"@.len() == 5);
    assert("bottom"@.len() == 6);
    assert("left"@.len() == 4);
    assert("border-"@.len() == 7);
    assert("-style"@.len() == 6);
    assert("border-top-style"@.len() == 16);
    assert("border-right-style"@.len() == 18);
    assert("border-bottom-style"@.len() == 19);
    assert("border-left-style"@.len() == 17);
    assert("border-style"@[7] == 's');
    assert("border-width"@[7] == 'w');
    assert("border-"@ + "top"@ + "-style"@ =~= "border-top-style"@);
    assert("border-"@ + "right"@ + "-style"@ =~= "border-right-style"@);
    assert("border-"@ + "bottom"@ + "-style"@ =~= "border-bottom-style"@);
    assert("border-"@ + "left"@ + "-style"@ =~= "border-left-style"@);
}

/// `border-color` sets the four sides, clockwise from the top: one value is
/// for all, the second of two or more for the neighbours of the first, the
/// third for its opposite, the fourth for the last. More than four set nothing.
pub proof fn law_border_color_goes_round(c: Seq<ValueModel>)
    ensures
        c.len() == 1 ==> shorthand::expansion("border-color"@, c) == seq![
            says("border-top-color"@, c[0]),
            says("border-right-color"@, c[0]),
            says("border-bottom-color"@, c[0]),
            says("border-left-color"@, c[0]),
        ],
        c.len() == 2 ==> shorthand::expansion("border-color"@, c) == seq![
            says("border-top-color"@, c[0]),
            says("border-right-color"@, c[1]),
            says("border-bottom-color"@, c[0]),
            says("border-left-color"@, c[1]),
        ],
        c.len() == 3 ==> shorthand::expansion("border-color"@, c) == seq![
            says("border-top-color"@, c[0]),
            says("border-right-color"@, c[1]),
            says("border-bottom-color"@, c[2]),
            says("border-left-color"@, c[1]),
        ],
        c.len() == 4 ==> shorthand::expansion("border-color"@, c) == seq![
            says("border-top-color"@, c[0]),
            says("border-right-color"@, c[1]),
            says("border-bottom-color"@, c[2]),
            says("border-left-color"@, c[3]),
        ],
        c.len() > 4 ==> shorthand::expansion("border-color"@, c).len() == 0,
{
    reveal_strlit("border-color");
    reveal_strlit("margin");
    reveal_strlit("padding");
    reveal_strlit("inset");
    reveal_strlit("border-width");
    reveal_strlit("border-style");
    reveal_strlit("top");
    reveal_strlit("right");
    reveal_strlit("bottom");
    reveal_strlit("left");
    reveal_strlit("border-");
    reveal_strlit("-color");
    reveal_strlit("border-top-color");
    reveal_strlit("border-right-color");
    reveal_strlit("border-bottom-color");
    reveal_strlit("border-left-color");
    assert("border-color"@.len() == 12);
    assert("margin"@.len() == 6);
    assert("padding"@.len() == 7);
    assert("inset"@.len() == 5);
    assert("border-width"@.len() == 12);
    assert("border-style"@.len() == 12);
    assert("top"@.len() == 3);
    assert("right"@.len() == 5);
    assert("bottom"@.len() == 6);
    assert("left"@.len() == 4);
    assert("border-"@.len() == 7);
    assert("-color"@.len() == 6);
    assert("border-top-color"@.len() == 16);
    assert("border-right-color"@.len() == 18);
    assert("border-bottom-color"@.len() == 19);
    assert("border-left-color"@.len() == 17);
    assert("border-color"@[7] == 'c');
    assert("border-width"@[7] == 'w');
    assert("border-style"@[7] == 's');
    assert("border-"@ + "top"@ + "-color"@ =~= "border-top-color"@);
    assert("border-"@ + "right"@ + "-color"@ =~= "border-right-color"@);
    assert("border-"@ + "bottom"@ + "-color"@ =~= "border-bottom-color"@);
    assert("border-"@ + "left"@ + "-color"@ =~= "border-left-color"@);
}

/// `border-radius` sets the four corners, clockwise from the top left: one value is
/// for all, the second of two or more for the neighbours of the first, the
/// third for its opposite, the fourth for the last. More than four set nothing.
pub proof fn law_border_radius_goes_round(c: Seq<ValueModel>)
    ensures
        c.len() == 1 ==> shorthand::expansion("border-radius"@, c) == seq![
            says("border-top-left-radius"@, c[0]),
            says("border-top-right-radius"@, c[0]),
            says("border-bottom-right-radius"@, c[0]),
            says("border-bottom-left-radius"@, c[0]),
        ],
        c.len() == 2 ==> shorthand::expansion("border-radius"@, c) == seq![
            says("border-top-left-radius"@, c[0]),
            says("border-top-right-radius"@, c[1]),
            says("border-bottom-right-radius"@, c[0]),
            says("border-bottom-left-radius"@, c[1]),
        ],
        c.len() == 3 ==> shorthand::expansion("border-radius"@, c) == seq![
            says("border-top-left-radius"@, c[0]),
            says("border-top-right-radius"@, c[1]),
            says("border-bottom-right-radius"@, c[2]),
            says("border-bottom-left-radius"@, c[1]),
        ],
        c.len() == 4 ==> shorthand::expansion("border-radius"@, c) == seq![
            says("border-top-left-radius"@, c[0]),
            says("border-top-right-radius"@, c[1]),
            says("border-bottom-right-radius"@, c[2]),
            says("border-bottom-left-radius"@, c[3]),
        ],
        c.len() > 4 ==> shorthand::expansion("border-radius"@, c).len() == 0,
{
    reveal_strlit("border-radius");
    reveal_strlit("margin");
    reveal_strlit("padding");
    reveal_strlit("inset");
    reveal_strlit("border-width");
    reveal_strlit("border-style");
    reveal_strlit("border-color");
    reveal_strlit("top-left");
    reveal_strlit("top-right");
    reveal_strlit("bottom-right");
    reveal_strlit("bottom-left");
    reveal_strlit("border-");
    reveal_strlit("-radius");
    reveal_strlit("border-top-left-radius");
    reveal_strlit("border-top-right-radius");
    reveal_strlit("border-bottom-right-radius");
    reveal_strlit("border-bottom-left-radius");
    assert("border-radius"@.len() == 13);
    assert("margin"@.len() == 6);
    assert("padding"@.len() == 7);
    assert("inset"@.len() == 5);
    assert("border-width"@.len() == 12);
    assert("border-style"@.len() == 12);
    assert("border-color"@.len() == 12);
    assert("top-left"@.len() == 8);
    assert("top-right"@.len() == 9);
    assert("bottom-right"@.len() == 12);
    assert("bottom-left"@.len() == 11);
    assert("border-"@.len() == 7);
    assert("-radius"@.len() == 7);
    assert("border-top-left-radius"@.len() == 22);
    assert("border-top-right-radius"@.len() == 23);
    assert("border-bottom-right-radius"@.len() == 26);
    assert("border-bottom-left-radius"@.len() == 25);
    assert("border-"@ + "top-left"@ + "-radius"@ =~= "border-top-left-radius"@);
    assert("border-"@ + "top-right"@ + "-radius"@ =~= "border-top-right-radius"@);
    assert("border-"@ + "bottom-right"@ + "-radius"@ =~= "border-bottom-right-radius"@);
    assert("border-"@ + "bottom-left"@ + "-radius"@ =~= "border-bottom-left-radius"@);
}

/// A shorthand of one axis sets its start and its end; one value is for both.
/// The inline axis runs from left to right, the block axis from top to bottom.
#[verifier::rlimit(60)]
pub proof fn law_axes_set_both_ends(c: Seq<ValueModel>)
    requires
        c.len() > 0,
    ensures
        shorthand::expansion("margin-inline"@, c) == seq![
            says("margin-left"@, c[0]),
            says(
                "margin-right"@,
                if c.len() > 1 {
                    c[1]
                } else {
                    c[0]
                },
            ),
        ],
        shorthand::expansion("margin-block"@, c) == seq![
            says("margin-top"@, c[0]),
            says(
                "margin-bottom"@,
                if c.len() > 1 {
                    c[1]
                } else {
                    c[0]
                },
            ),
        ],
        shorthand::expansion("padding-inline"@, c) == seq![
            says("padding-left"@, c[0]),
            says(
                "padding-right"@,
                if c.len() > 1 {
                    c[1]
                } else {
                    c[0]
                },
            ),
        ],
        shorthand::expansion("padding-block"@, c) == seq![
            says("padding-top"@, c[0]),
            says(
                "padding-bottom"@,
                if c.len() > 1 {
                    c[1]
                } else {
                    c[0]
                },
            ),
        ],
        shorthand::expansion("border-inline-width"@, c) == seq![
            says("border-left-width"@, c[0]),
            says(
                "border-right-width"@,
                if c.len() > 1 {
                    c[1]
                } else {
                    c[0]
                },
            ),
        ],
        shorthand::expansion("border-inline-style"@, c) == seq![
            says("border-left-style"@, c[0]),
            says(
                "border-right-style"@,
                if c.len() > 1 {
                    c[1]
                } else {
                    c[0]
                },
            ),
        ],
        shorthand::expansion("border-inline-color"@, c) == seq![
            says("border-left-color"@, c[0]),
            says(
                "border-right-color"@,
                if c.len() > 1 {
                    c[1]
                } else {
                    c[0]
                },
            ),
        ],
        shorthand::expansion("border-block-width"@, c) == seq![
            says("border-top-width"@, c[0]),
            says(
                "border-bottom-width"@,
                if c.len() > 1 {
                    c[1]
                } else {
                    c[0]
                },
            ),
        ],
        shorthand::expansion("border-block-style"@, c) == seq![
            says("border-top-style"@, c[0]),
            says(
                "border-bottom-style"@,
                if c.len() > 1 {
                    c[1]
                } else {
                    c[0]
                },
            ),
        ],
        shorthand::expansion("border-block-color"@, c) == seq![
            says("border-top-color"@, c[0]),
            says(
                "border-bottom-color"@,
                if c.len() > 1 {
                    c[1]
                } else {
                    c[0]
                },
            ),
        ],
        shorthand::expansion("inset-inline"@, c) == seq![
            says("left"@, c[0]),
            says(
                "right"@,
                if c.len() > 1 {
                    c[1]
                } else {
                    c[0]
                },
            ),
        ],
        shorthand::expansion("inset-block"@, c) == seq![
            says("top"@, c[0]),
            says(
                "bottom"@,
                if c.len() > 1 {
                    c[1]
                } else {
                    c[0]
                },
            ),
        ],
{
    reveal_strlit("margin-inline");
    reveal_strlit("margin-block");
    reveal_strlit("padding-inline");
    reveal_strlit("padding-block");
    reveal_strlit("border-inline-width");
    reveal_strlit("border-inline-style");
    reveal_strlit("border-inline-color");
    reveal_strlit("border-block-width");
    reveal_strlit("border-block-style");
    reveal_strlit("border-block-color");
    reveal_strlit("inset-inline");
    reveal_strlit("inset-block");
    reveal_strlit("margin");
    reveal_strlit("padding");
    reveal_strlit("inset");
    reveal_strlit("border-width");
    reveal_strlit("border-style");
    reveal_strlit("border-color");
    reveal_strlit("border-radius");
    assert("margin-inline"@.len() == 13);
    assert("margin-block"@.len() == 12);
    assert("padding-inline"@.len() == 14);
    assert("padding-block"@.len() == 13);
    assert("border-inline-width"@.len() == 19);
    assert("border-inline-style"@.len() == 19);
    assert("border-inline-color"@.len() == 19);
    assert("border-block-width"@.len() == 18);
    assert("border-block-style"@.len() == 18);
    assert("border-block-color"@.len() == 18);
    assert("inset-inline"@.len() == 12);
    assert("inset-block"@.len() == 11);
    assert("margin"@.len() == 6);
    assert("padding"@.len() == 7);
    assert("inset"@.len() == 5);
    assert("border-width"@.len() == 12);
    assert("border-style"@.len() == 12);
    assert("border-color"@.len() == 12);
    assert("border-radius"@.len() == 13);
    assert("margin-inline"@[0] == 'm');
    assert("padding-block"@[0] == 'p');
    assert("border-radius"@[0] == 'b');
    assert("margin-block"@[0] == 'm');
    assert("inset-inline"@[0] == 'i');
    assert("border-width"@[0] == 'b');
    assert("border-style"@[0] == 'b');
    assert("border-color"@[0] == 'b');
    assert("border-inline-width"@[14] == 'w');
    assert("border-inline-style"@[14] == 's');
    assert("border-inline-color"@[14] == 'c');
    assert("border-block-width"@[13] == 'w');
    assert("border-block-style"@[13] == 's');
    assert("border-block-color"@[13] == 'c');
}

/// A logical margin and padding longhand stands for a physical one: inline start and
/// end are left and right, block start and end are top and bottom.
#[verifier::rlimit(60)]
pub proof fn law_logical_margins_and_paddings(c: Seq<ValueModel>)
    requires
        c.len() > 0,
    ensures
        shorthand::expansion("margin-inline-start"@, c) == seq![says("margin-left"@, c[0])],
        shorthand::expansion("margin-inline-end"@, c) == seq![says("margin-right"@, c[0])],
        shorthand::expansion("margin-block-start"@, c) == seq![says("margin-top"@, c[0])],
        shorthand::expansion("margin-block-end"@, c) == seq![says("margin-bottom"@, c[0])],
        shorthand::expansion("padding-inline-start"@, c) == seq![says("padding-left"@, c[0])],
        shorthand::expansion("padding-inline-end"@, c) == seq![says("padding-right"@, c[0])],
        shorthand::expansion("padding-block-start"@, c) == seq![says("padding-top"@, c[0])],
        shorthand::expansion("padding-block-end"@, c) == seq![says("padding-bottom"@, c[0])],
{
    reveal_strlit("margin-inline-start");
    reveal_strlit("margin-inline-end");
    reveal_strlit("margin-block-start");
    reveal_strlit("margin-block-end");
    reveal_strlit("padding-inline-start");
    reveal_strlit("padding-inline-end");
    reveal_strlit("padding-block-start");
    reveal_strlit("padding-block-end");
    reveal_strlit("margin");
    reveal_strlit("padding");
    reveal_strlit("inset");
    reveal_strlit("border-width");
    reveal_strlit("border-style");
    reveal_strlit("border-color");
    reveal_strlit("border-radius");
    reveal_strlit("margin-inline");
    reveal_strlit("margin-block");
    reveal_strlit("padding-inline");
    reveal_strlit("padding-block");
    reveal_strlit("border-inline-width");
    reveal_strlit("border-inline-style");
    reveal_strlit("border-inline-color");
    reveal_strlit("border-block-width");
    reveal_strlit("border-block-style");
    reveal_strlit("border-block-color");
    reveal_strlit("inset-inline");
    reveal_strlit("inset-block");
    reveal_strlit("inline-size");
    reveal_strlit("block-size");
    reveal_strlit("border-inline-start-width");
    reveal_strlit("border-inline-start-style");
    reveal_strlit("border-inline-start-color");
    reveal_strlit("border-inline-end-width");
    reveal_strlit("border-inline-end-style");
    reveal_strlit("border-inline-end-color");
    reveal_strlit("border-block-start-width");
    reveal_strlit("border-block-start-style");
    reveal_strlit("border-block-start-color");
    reveal_strlit("border-block-end-width");
    reveal_strlit("border-block-end-style");
    reveal_strlit("border-block-end-color");
    reveal_strlit("inset-inline-start");
    reveal_strlit("inset-inline-end");
    reveal_strlit("inset-block-start");
    reveal_strlit("inset-block-end");
    assert("margin-inline-start"@.len() == 19);
    assert("margin-inline-end"@.len() == 17);
    assert("margin-block-start"@.len() == 18);
    assert("margin-block-end"@.len() == 16);
    assert("padding-inline-start"@.len() == 20);
    assert("padding-inline-end"@.len() == 18);
    assert("padding-block-start"@.len() == 19);
    assert("padding-block-end"@.len() == 17);
    assert("margin"@.len() == 6);
    assert("padding"@.len() == 7);
    assert("inset"@.len() == 5);
    assert("border-width"@.len() == 12);
    assert("border-style"@.len() == 12);
    assert("border-color"@.len() == 12);
    assert("border-radius"@.len() == 13);
    assert("margin-inline"@.len() == 13);
    assert("margin-block"@.len() == 12);
    assert("padding-inline"@.len() == 14);
    assert("padding-block"@.len() == 13);
    assert("border-inline-width"@.len() == 19);
    assert("border-inline-style"@.len() == 19);
    assert("border-inline-color"@.len() == 19);
    assert("border-block-width"@.len() == 18);
    assert("border-block-style"@.len() == 18);
    assert("border-block-color"@.len() == 18);
    assert("inset-inline"@.len() == 12);
    assert("inset-block"@.len() == 11);
    assert("inline-size"@.len() == 11);
    assert("block-size"@.len() == 10);
    assert("border-inline-start-width"@.len() == 25);
    assert("border-inline-start-style"@.len() == 25);
    assert("border-inline-start-color"@.len() == 25);
    assert("border-inline-end-width"@.len() == 23);
    assert("border-inline-end-style"@.len() == 23);
    assert("border-inline-end-color"@.len() == 23);
    assert("border-block-start-width"@.len() == 24);
    assert("border-block-start-style"@.len() == 24);
    assert("border-block-start-color"@.len() == 24);
    assert("border-block-end-width"@.len() == 22);
    assert("border-block-end-style"@.len() == 22);
    assert("border-block-end-color"@.len() == 22);
    assert("inset-inline-start"@.len() == 18);
    assert("inset-inline-end"@.len() == 16);
    assert("inset-block-start"@.len() == 17);
    assert("inset-block-end"@.len() == 15);
    assert("margin-inline-start"@[0] == 'm');
    assert("padding-block-start"@[0] == 'p');
    assert("border-inline-width"@[0] == 'b');
    assert("border-inline-style"@[0] == 'b');
    assert("border-inline-color"@[0] == 'b');
    assert("margin-inline-end"@[0] == 'm');
    assert("padding-block-end"@[0] == 'p');
    assert("inset-block-start"@[0] == 'i');
    assert("margin-block-start"@[0] == 'm');
    assert("padding-inline-end"@[0] == 'p');
    assert("border-block-width"@[0] == 'b');
    assert("border-block-style"@[0] == 'b');
    assert("border-block-color"@[0] == 'b');
    assert("inset-inline-start"@[0] == 'i');
    assert("margin-block-end"@[0] == 'm');
    assert("inset-inline-end"@[0] == 'i');
}

/// A logical size and inset longhand stands for a physical one: inline start and
/// end are left and right, block start and end are top and bottom.
#[verifier::rlimit(60)]
pub proof fn law_logical_sizes_and_insets(c: Seq<ValueModel>)
    requires
        c.len() > 0,
    ensures
        shorthand::expansion("inline-size"@, c) == seq![says("width"@, c[0])],
        shorthand::expansion("block-size"@, c) == seq![says("height"@, c[0])],
        shorthand::expansion("inset-inline-start"@, c) == seq![says("left"@, c[0])],
        shorthand::expansion("inset-inline-end"@, c) == seq![says("right"@, c[0])],
        shorthand::expansion("inset-block-start"@, c) == seq![says("top"@, c[0])],
        shorthand::expansion("inset-block-end"@, c) == seq![says("bottom"@, c[0])],
{
    reveal_strlit("inline-size");
    reveal_strlit("block-size");
    reveal_strlit("inset-inline-start");
    reveal_strlit("inset-inline-end");
    reveal_strlit("inset-block-start");
    reveal_strlit("inset-block-end");
    reveal_strlit("margin");
    reveal_strlit("padding");
    reveal_strlit("inset");
    reveal_strlit("border-width");
    reveal_strlit("border-style");
    reveal_strlit("border-color");
    reveal_strlit("border-radius");
    reveal_strlit("margin-inline");
    reveal_strlit("margin-block");
    reveal_strlit("padding-inline");
    reveal_strlit("padding-block");
    reveal_strlit("border-inline-width");
    reveal_strlit("border-inline-style");
    reveal_strlit("border-inline-color");
    reveal_strlit("border-block-width");
    reveal_strlit("border-block-style");
    reveal_strlit("border-block-color");
    reveal_strlit("inset-inline");
    reveal_strlit("inset-block");
    reveal_strlit("margin-inline-start");
    reveal_strlit("margin-inline-end");
    reveal_strlit("margin-block-start");
    reveal_strlit("margin-block-end");
    reveal_strlit("padding-inline-start");
    reveal_strlit("padding-inline-end");
    reveal_strlit("padding-block-start");
    reveal_strlit("padding-block-end");
    reveal_strlit("border-inline-start-width");
    reveal_strlit("border-inline-start-style");
    reveal_strlit("border-inline-start-color");
    reveal_strlit("border-inline-end-width");
    reveal_strlit("border-inline-end-style");
    reveal_strlit("border-inline-end-color");
    reveal_strlit("border-block-start-width");
    reveal_strlit("border-block-start-style");
    reveal_strlit("border-block-start-color");
    reveal_strlit("border-block-end-width");
    reveal_strlit("border-block-end-style");
    reveal_strlit("border-block-end-color");
    assert("inline-size"@.len() == 11);
    assert("block-size"@.len() == 10);
    assert("inset-inline-start"@.len() == 18);
    assert("inset-inline-end"@.len() == 16);
    assert("inset-block-start"@.len() == 17);
    assert("inset-block-end"@.len() == 15);
    assert("margin"@.len() == 6);
    assert("padding"@.len() == 7);
    assert("inset"@.len() == 5);
    assert("border-width"@.len() == 12);
    assert("border-style"@.len() == 12);
    assert("border-color"@.len() == 12);
    assert("border-radius"@.len() == 13);
    assert("margin-inline"@.len() == 13);
    assert("margin-block"@.len() == 12);
    assert("padding-inline"@.len() == 14);
    assert("padding-block"@.len() == 13);
    assert("border-inline-width"@.len() == 19);
    assert("border-inline-style"@.len() == 19);
    assert("border-inline-color"@.len() == 19);
    assert("border-block-width"@.len() == 18);
    assert("border-block-style"@.len() == 18);
    assert("border-block-color"@.len() == 18);
    assert("inset-inline"@.len() == 12);
    assert("inset-block"@.len() == 11);
    assert("margin-inline-start"@.len() == 19);
    assert("margin-inline-end"@.len() == 17);
    assert("margin-block-start"@.len() == 18);
    assert("margin-block-end"@.len() == 16);
    assert("padding-inline-start"@.len() == 20);
    assert("padding-inline-end"@.len() == 18);
    assert("padding-block-start"@.len() == 19);
    assert("padding-block-end"@.len() == 17);
    assert("border-inline-start-width"@.len() == 25);
    assert("border-inline-start-style"@.len() == 25);
    assert("border-inline-start-color"@.len() == 25);
    assert("border-inline-end-width"@.len() == 23);
    assert("border-inline-end-style"@.len() == 23);
    assert("border-inline-end-color"@.len() == 23);
    assert("border-block-start-width"@.len() == 24);
    assert("border-block-start-style"@.len() == 24);
    assert("border-block-start-color"@.len() == 24);
    assert("border-block-end-width"@.len() == 22);
    assert("border-block-end-style"@.len() == 22);
    assert("border-block-end-color"@.len() == 22);
    assert("inline-size"@[2] == 'l');
    assert("inset-block"@[2] == 's');
    assert("inset-inline-start"@[0] == 'i');
    assert("border-block-width"@[0] == 'b');
    assert("border-block-style"@[0] == 'b');
    assert("border-block-color"@[0] == 'b');
    assert("margin-block-start"@[0] == 'm');
    assert("padding-inline-end"@[0] == 'p');
    assert("inset-inline-end"@[0] == 'i');
    assert("margin-block-end"@[0] == 'm');
    assert("inset-block-start"@[0] == 'i');
    assert("margin-inline-end"@[0] == 'm');
    assert("padding-block-end"@[0] == 'p');
}

/// A logical border longhand stands for a physical one: inline start and
/// end are left and right, block start and end are top and bottom.
#[verifier::rlimit(60)]
pub proof fn law_logical_borders(c: Seq<ValueModel>)
    requires
        c.len() > 0,
    ensures
        shorthand::expansion("border-inline-start-width"@, c) == seq![says("border-left-width"@, c[0])],
        shorthand::expansion("border-inline-start-style"@, c) == seq![says("border-left-style"@, c[0])],
        shorthand::expansion("border-inline-start-color"@, c) == seq![says("border-left-color"@, c[0])],
        shorthand::expansion("border-inline-end-width"@, c) == seq![says("border-right-width"@, c[0])],
        shorthand::expansion("border-inline-end-style"@, c) == seq![says("border-right-style"@, c[0])],
        shorthand::expansion("border-inline-end-color"@, c) == seq![says("border-right-color"@, c[0])],
        shorthand::expansion("border-block-start-width"@, c) == seq![says("border-top-width"@, c[0])],
        shorthand::expansion("border-block-start-style"@, c) == seq![says("border-top-style"@, c[0])],
        shorthand::expansion("border-block-start-color"@, c) == seq![says("border-top-color"@, c[0])],
        shorthand::expansion("border-block-end-width"@, c) == seq![says("border-bottom-width"@, c[0])],
        shorthand::expansion("border-block-end-style"@, c) == seq![says("border-bottom-style"@, c[0])],
        shorthand::expansion("border-block-end-color"@, c) == seq![says("border-bottom-color"@, c[0])],
{
    reveal_strlit("border-inline-start-width");
    reveal_strlit("border-inline-start-style");
    reveal_strlit("border-inline-start-color");
    reveal_strlit("border-inline-end-width");
    reveal_strlit("border-inline-end-style");
    reveal_strlit("border-inline-end-color");
    reveal_strlit("border-block-start-width");
    reveal_strlit("border-block-start-style");
    reveal_strlit("border-block-start-color");
    reveal_strlit("border-block-end-width");
    reveal_strlit("border-block-end-style");
    reveal_strlit("border-block-end-color");
    reveal_strlit("margin");
    reveal_strlit("padding");
    reveal_strlit("inset");
    reveal_strlit("border-width");
    reveal_strlit("border-style");
    reveal_strlit("border-color");
    reveal_strlit("border-radius");
    reveal_strlit("margin-inline");
    reveal_strlit("margin-block");
    reveal_strlit("padding-inline");
    reveal_strlit("padding-block");
    reveal_strlit("border-inline-width");
    reveal_strlit("border-inline-style");
    reveal_strlit("border-inline-color");
    reveal_strlit("border-block-width");
    reveal_strlit("border-block-style");
    reveal_strlit("border-block-color");
    reveal_strlit("inset-inline");
    reveal_strlit("inset-block");
    reveal_strlit("margin-inline-start");
    reveal_strlit("margin-inline-end");
    reveal_strlit("margin-block-start");
    reveal_strlit("margin-block-end");
    reveal_strlit("padding-inline-start");
    reveal_strlit("padding-inline-end");
    reveal_strlit("padding-block-start");
    reveal_strlit("padding-block-end");
    reveal_strlit("inline-size");
    reveal_strlit("block-size");
    reveal_strlit("inset-inline-start");
    reveal_strlit("inset-inline-end");
    reveal_strlit("inset-block-start");
    reveal_strlit("inset-block-end");
    assert("border-inline-start-width"@.len() == 25);
    assert("border-inline-start-style"@.len() == 25);
    assert("border-inline-start-color"@.len() == 25);
    assert("border-inline-end-width"@.len() == 23);
    assert("border-inline-end-style"@.len() == 23);
    assert("border-inline-end-color"@.len() == 23);
    assert("border-block-start-width"@.len() == 24);
    assert("border-block-start-style"@.len() == 24);
    assert("border-block-start-color"@.len() == 24);
    assert("border-block-end-width"@.len() == 22);
    assert("border-block-end-style"@.len() == 22);
    assert("border-block-end-color"@.len() == 22);
    assert("margin"@.len() == 6);
    assert("padding"@.len() == 7);
    assert("inset"@.len() == 5);
    assert("border-width"@.len() == 12);
    assert("border-style"@.len() == 12);
    assert("border-color"@.len() == 12);
    assert("border-radius"@.len() == 13);
    assert("margin-inline"@.len() == 13);
    assert("margin-block"@.len() == 12);
    assert("padding-inline"@.len() == 14);
    assert("padding-block"@.len() == 13);
    assert("border-inline-width"@.len() == 19);
    assert("border-inline-style"@.len() == 19);
    assert("border-inline-color"@.len() == 19);
    assert("border-block-width"@.len() == 18);
    assert("border-block-style"@.len() == 18);
    assert("border-block-color"@.len() == 18);
    assert("inset-inline"@.len() == 12);
    assert("inset-block"@.len() == 11);
    assert("margin-inline-start"@.len() == 19);
    assert("margin-inline-end"@.len() == 17);
    assert("margin-block-start"@.len() == 18);
    assert("margin-block-end"@.len() == 16);
    assert("padding-inline-start"@.len() == 20);
    assert("padding-inline-end"@.len() == 18);
    assert("padding-block-start"@.len() == 19);
    assert("padding-block-end"@.len() == 17);
    assert("inline-size"@.len() == 11);
    assert("block-size"@.len() == 10);
    assert("inset-inline-start"@.len() == 18);
    assert("inset-inline-end"@.len() == 16);
    assert("inset-block-start"@.len() == 17);
    assert("inset-block-end"@.len() == 15);
    assert("border-inline-start-width"@[20] == 'w');
    assert("border-inline-start-style"@[20] == 's');
    assert("border-inline-start-color"@[20] == 'c');
    assert("border-inline-end-width"@[18] == 'w');
    assert("border-inline-end-style"@[18] == 's');
    assert("border-inline-end-color"@[18] == 'c');
    assert("border-block-start-width"@[19] == 'w');
    assert("border-block-start-style"@[19] == 's');
    assert("border-block-start-color"@[19] == 'c');
    assert("border-block-end-width"@[17] == 'w');
    assert("border-block-end-style"@[17] == 's');
    assert("border-block-end-color"@[17] == 'c');
}
/// A width of a line: a length or a number.
pub open spec fn is_line_width(v: ValueModel) -> bool {
    v is Length || v is Number
}

/// A style of a line.
pub open spec fn is_line_style(v: ValueModel) -> bool {
    ||| v == ValueModel::Keyword("none"@)
    ||| v == ValueModel::Keyword("hidden"@)
    ||| v == ValueModel::Keyword("solid"@)
    ||| v == ValueModel::Keyword("dashed"@)
    ||| v == ValueModel::Keyword("dotted"@)
}

proof fn lemma_last_width(c: Seq<ValueModel>, k: int)
    requires
        -1 <= k < c.len(),
        k >= 0 ==> is_line_width(c[k]),
        forall|i: int| k < i < c.len() ==> !is_line_width(#[trigger] c[i]),
    ensures
        shorthand::last_part(c, shorthand::LinePart::Width) == (if k >= 0 {
            Some(c[k])
        } else {
            None
        }),
    decreases c.len(),
{
    if c.len() > 0 && k < c.len() - 1 {
        assert(!is_line_width(c[c.len() - 1]));
        assert(c.drop_last()[k] == c[k] || k < 0);
        lemma_last_width(c.drop_last(), k);
    }
}

proof fn lemma_last_style(c: Seq<ValueModel>, k: int)
    requires
        -1 <= k < c.len(),
        k >= 0 ==> is_line_style(c[k]),
        forall|i: int| k < i < c.len() ==> !is_line_style(#[trigger] c[i]),
    ensures
        shorthand::last_part(c, shorthand::LinePart::Style) == (if k >= 0 {
            Some(c[k])
        } else {
            None
        }),
    decreases c.len(),
{
    if c.len() > 0 && k < c.len() - 1 {
        assert(!is_line_style(c[c.len() - 1]));
        assert(c.drop_last()[k] == c[k] || k < 0);
        lemma_last_style(c.drop_last(), k);
    }
}

proof fn lemma_last_color(c: Seq<ValueModel>, k: int)
    requires
        -1 <= k < c.len(),
        k >= 0 ==> c[k] is Color,
        forall|i: int| k < i < c.len() ==> !((#[trigger] c[i]) is Color),
    ensures
        shorthand::last_part(c, shorthand::LinePart::Color) == (if k >= 0 {
            Some(c[k])
        } else {
            None
        }),
    decreases c.len(),
{
    if c.len() > 0 && k < c.len() - 1 {
        assert(!(c[c.len() - 1] is Color));
        assert(c.drop_last()[k] == c[k] || k < 0);
        lemma_last_color(c.drop_last(), k);
    }
}

/// One side of a border takes its width, style and color from the last
/// component of each kind, at the places `w`, `s` and `k`, where `-1` stands
/// for none: no width is three pixels, no style is `none`, and no color is not
/// declared.
pub proof fn law_border_sides_take_the_last(
    side: Seq<char>,
    c: Seq<ValueModel>,
    w: int,
    s: int,
    k: int,
)
    requires
        -1 <= w < c.len(),
        -1 <= s < c.len(),
        -1 <= k < c.len(),
        w >= 0 ==> is_line_width(c[w]),
        forall|i: int| w < i < c.len() ==> !is_line_width(#[trigger] c[i]),
        s >= 0 ==> is_line_style(c[s]),
        forall|i: int| s < i < c.len() ==> !is_line_style(#[trigger] c[i]),
        k >= 0 ==> c[k] is Color,
        forall|i: int| k < i < c.len() ==> !((#[trigger] c[i]) is Color),
    ensures
        ({
            let d = shorthand::border_side_declarations(side, c);
            let name = "border-"@ + side;
            let pixels = NumberModel { literal: seq!['3'], scale: Scale::One };
            &&& d.len() == if k >= 0 {
                3int
            } else {
                2
            }
            &&& d[0] == says(
                name + "-width"@,
                if w >= 0 {
                    c[w]
                } else {
                    ValueModel::Length(pixels, Unit::Px)
                },
            )
            &&& d[1] == says(
                name + "-style"@,
                if s >= 0 {
                    c[s]
                } else {
                    ValueModel::Keyword("none"@)
                },
            )
            &&& k >= 0 ==> d[2] == says(name + "-color"@, c[k])
        }),
{
    lemma_last_width(c, w);
    lemma_last_style(c, s);
    lemma_last_color(c, k);
    reveal_strlit("3");
    assert("3"@ =~= seq!['3']);
}

/// The declarations of up to four sides, one after the other.
proof fn lemma_sides_listed(sides: Seq<Seq<char>>, c: Seq<ValueModel>)
    ensures
        sides.len() == 1 ==> shorthand::sides_declarations(sides, 1, c)
            == shorthand::border_side_declarations(sides[0], c),
        sides.len() == 2 ==> shorthand::sides_declarations(sides, 2, c)
            == shorthand::border_side_declarations(sides[0], c)
            + shorthand::border_side_declarations(sides[1], c),
        sides.len() == 4 ==> shorthand::sides_declarations(sides, 4, c)
            == shorthand::border_side_declarations(sides[0], c)
            + shorthand::border_side_declarations(sides[1], c)
            + shorthand::border_side_declarations(sides[2], c)
            + shorthand::border_side_declarations(sides[3], c),
{
    reveal_with_fuel(shorthand::sides_declarations, 5);
    let none = Seq::<DeclarationModel>::empty();
    let first = shorthand::border_side_declarations(sides[0], c);
    assert(none + first =~= first);
}

/// `border` sets the four sides, a border of one axis its two, and a border of
/// one side, by its physical or its logical name, that one.
#[verifier::rlimit(80)]
pub proof fn law_borders_set_their_sides(c: Seq<ValueModel>)
    requires
        c.len() > 0,
    ensures
        shorthand::expansion("border"@, c) == shorthand::border_side_declarations("top"@, c) + shorthand::border_side_declarations("right"@, c) + shorthand::border_side_declarations("bottom"@, c) + shorthand::border_side_declarations("left"@, c),
        shorthand::expansion("border-inline"@, c) == shorthand::border_side_declarations("left"@, c) + shorthand::border_side_declarations("right"@, c),
        shorthand::expansion("border-block"@, c) == shorthand::border_side_declarations("top"@, c) + shorthand::border_side_declarations("bottom"@, c),
        shorthand::expansion("border-inline-start"@, c) == shorthand::border_side_declarations("left"@, c),
        shorthand::expansion("border-left"@, c) == shorthand::border_side_declarations("left"@, c),
        shorthand::expansion("border-inline-end"@, c) == shorthand::border_side_declarations("right"@, c),
        shorthand::expansion("border-right"@, c) == shorthand::border_side_declarations("right"@, c),
        shorthand::expansion("border-block-start"@, c) == shorthand::border_side_declarations("top"@, c),
        shorthand::expansion("border-top"@, c) == shorthand::border_side_declarations("top"@, c),
        shorthand::expansion("border-block-end"@, c) == shorthand::border_side_declarations("bottom"@, c),
        shorthand::expansion("border-bottom"@, c) == shorthand::border_side_declarations("bottom"@, c),
{
    reveal_strlit("border");
    reveal_strlit("border-inline");
    reveal_strlit("border-block");
    reveal_strlit("border-inline-start");
    reveal_strlit("border-left");
    reveal_strlit("border-inline-end");
    reveal_strlit("border-right");
    reveal_strlit("border-block-start");
    reveal_strlit("border-top");
    reveal_strlit("border-block-end");
    reveal_strlit("border-bottom");
    reveal_strlit("margin");
    reveal_strlit("padding");
    reveal_strlit("inset");
    reveal_strlit("border-width");
    reveal_strlit("border-style");
    reveal_strlit("border-color");
    reveal_strlit("border-radius");
    reveal_strlit("margin-inline");
    reveal_strlit("margin-block");
    reveal_strlit("padding-inline");
    reveal_strlit("padding-block");
    reveal_strlit("border-inline-width");
    reveal_strlit("border-inline-style");
    reveal_strlit("border-inline-color");
    reveal_strlit("border-block-width");
    reveal_strlit("border-block-style");
    reveal_strlit("border-block-color");
    reveal_strlit("inset-inline");
    reveal_strlit("inset-block");
    reveal_strlit("margin-inline-start");
    reveal_strlit("margin-inline-end");
    reveal_strlit("margin-block-start");
    reveal_strlit("margin-block-end");
    reveal_strlit("padding-inline-start");
    reveal_strlit("padding-inline-end");
    reveal_strlit("padding-block-start");
    reveal_strlit("padding-block-end");
    reveal_strlit("inline-size");
    reveal_strlit("block-size");
    reveal_strlit("border-inline-start-width");
    reveal_strlit("border-inline-start-style");
    reveal_strlit("border-inline-start-color");
    reveal_strlit("border-inline-end-width");
    reveal_strlit("border-inline-end-style");
    reveal_strlit("border-inline-end-color");
    reveal_strlit("border-block-start-width");
    reveal_strlit("border-block-start-style");
    reveal_strlit("border-block-start-color");
    reveal_strlit("border-block-end-width");
    reveal_strlit("border-block-end-style");
    reveal_strlit("border-block-end-color");
    reveal_strlit("inset-inline-start");
    reveal_strlit("inset-inline-end");
    reveal_strlit("inset-block-start");
    reveal_strlit("inset-block-end");
    assert("border"@.len() == 6);
    assert("border-inline"@.len() == 13);
    assert("border-block"@.len() == 12);
    assert("border-inline-start"@.len() == 19);
    assert("border-left"@.len() == 11);
    assert("border-inline-end"@.len() == 17);
    assert("border-right"@.len() == 12);
    assert("border-block-start"@.len() == 18);
    assert("border-top"@.len() == 10);
    assert("border-block-end"@.len() == 16);
    assert("border-bottom"@.len() == 13);
    assert("margin"@.len() == 6);
    assert("padding"@.len() == 7);
    assert("inset"@.len() == 5);
    assert("border-width"@.len() == 12);
    assert("border-style"@.len() == 12);
    assert("border-color"@.len() == 12);
    assert("border-radius"@.len() == 13);
    assert("margin-inline"@.len() == 13);
    assert("margin-block"@.len() == 12);
    assert("padding-inline"@.len() == 14);
    assert("padding-block"@.len() == 13);
    assert("border-inline-width"@.len() == 19);
    assert("border-inline-style"@.len() == 19);
    assert("border-inline-color"@.len() == 19);
    assert("border-block-width"@.len() == 18);
    assert("border-block-style"@.len() == 18);
    assert("border-block-color"@.len() == 18);
    assert("inset-inline"@.len() == 12);
    assert("inset-block"@.len() == 11);
    assert("margin-inline-start"@.len() == 19);
    assert("margin-inline-end"@.len() == 17);
    assert("margin-block-start"@.len() == 18);
    assert("margin-block-end"@.len() == 16);
    assert("padding-inline-start"@.len() == 20);
    assert("padding-inline-end"@.len() == 18);
    assert("padding-block-start"@.len() == 19);
    assert("padding-block-end"@.len() == 17);
    assert("inline-size"@.len() == 11);
    assert("block-size"@.len() == 10);
    assert("border-inline-start-width"@.len() == 25);
    assert("border-inline-start-style"@.len() == 25);
    assert("border-inline-start-color"@.len() == 25);
    assert("border-inline-end-width"@.len() == 23);
    assert("border-inline-end-style"@.len() == 23);
    assert("border-inline-end-color"@.len() == 23);
    assert("border-block-start-width"@.len() == 24);
    assert("border-block-start-style"@.len() == 24);
    assert("border-block-start-color"@.len() == 24);
    assert("border-block-end-width"@.len() == 22);
    assert("border-block-end-style"@.len() == 22);
    assert("border-block-end-color"@.len() == 22);
    assert("inset-inline-start"@.len() == 18);
    assert("inset-inline-end"@.len() == 16);
    assert("inset-block-start"@.len() == 17);
    assert("inset-block-end"@.len() == 15);
    assert("border"@[0] == 'b');
    assert("margin"@[0] == 'm');
    assert("border-inline"@[7] == 'i');
    assert("border-bottom"@[7] == 'b');
    assert("border-radius"@[7] == 'r');
    assert("border-inline"@[0] == 'b');
    assert("margin-inline"@[0] == 'm');
    assert("padding-block"@[0] == 'p');
    assert("border-block"@[7] == 'b');
    assert("border-right"@[7] == 'r');
    assert("border-width"@[7] == 'w');
    assert("border-style"@[7] == 's');
    assert("border-color"@[7] == 'c');
    assert("border-block"@[0] == 'b');
    assert("margin-block"@[0] == 'm');
    assert("inset-inline"@[0] == 'i');
    assert("border-inline-start"@[14] == 's');
    assert("border-inline-width"@[14] == 'w');
    assert("border-inline-start"@[16] == 'a');
    assert("border-inline-style"@[16] == 'y');
    assert("border-inline-color"@[14] == 'c');
    assert("border-inline-start"@[0] == 'b');
    assert("margin-inline-start"@[0] == 'm');
    assert("padding-block-start"@[0] == 'p');
    assert("border-left"@[0] == 'b');
    assert("inset-block"@[0] == 'i');
    assert("inline-size"@[0] == 'i');
    assert("border-inline-end"@[0] == 'b');
    assert("margin-inline-end"@[0] == 'm');
    assert("padding-block-end"@[0] == 'p');
    assert("inset-block-start"@[0] == 'i');
    assert("border-right"@[0] == 'b');
    assert("border-block-start"@[13] == 's');
    assert("border-block-width"@[13] == 'w');
    assert("border-block-start"@[15] == 'a');
    assert("border-block-style"@[15] == 'y');
    assert("border-block-color"@[13] == 'c');
    assert("border-block-start"@[0] == 'b');
    assert("margin-block-start"@[0] == 'm');
    assert("padding-inline-end"@[0] == 'p');
    assert("inset-inline-start"@[0] == 'i');
    assert("border-top"@[1] == 'o');
    assert("block-size"@[1] == 'l');
    assert("border-block-end"@[0] == 'b');
    assert("margin-block-end"@[0] == 'm');
    assert("inset-inline-end"@[0] == 'i');
    assert("border-bottom"@[0] == 'b');
    lemma_sides_listed(seq!["top"@, "right"@, "bottom"@, "left"@], c);
    lemma_sides_listed(seq!["left"@, "right"@], c);
    lemma_sides_listed(seq!["top"@, "bottom"@], c);
    lemma_sides_listed(seq!["left"@], c);
    lemma_sides_listed(seq!["left"@], c);
    lemma_sides_listed(seq!["right"@], c);
    lemma_sides_listed(seq!["right"@], c);
    lemma_sides_listed(seq!["top"@], c);
    lemma_sides_listed(seq!["top"@], c);
    lemma_sides_listed(seq!["bottom"@], c);
    lemma_sides_listed(seq!["bottom"@], c);
}

proof fn lemma_outline(c: Seq<ValueModel>)
    ensures
        forall|i: int|
            0 <= i < c.len() && is_line_width(#[trigger] c[i]) ==> shorthand::outline_declarations(
                c,
            ).contains(says("outline-width"@, c[i])),
        forall|i: int|
            0 <= i < c.len() && is_line_style(#[trigger] c[i]) ==> shorthand::outline_declarations(
                c,
            ).contains(says("outline-style"@, c[i])),
        forall|i: int|
            0 <= i < c.len() && (#[trigger] c[i]) is Color ==> shorthand::outline_declarations(
                c,
            ).contains(says("outline-color"@, c[i])),
        shorthand::outline_declarations(c).len() <= c.len(),
    decreases c.len(),
{
    if c.len() > 0 {
        let rest = c.drop_last();
        lemma_outline(rest);
        let before = shorthand::outline_declarations(rest);
        let after = shorthand::outline_declarations(c);
        assert(after == before || after == before.push(after.last()));
        assert forall|d: DeclarationModel| before.contains(d) implies after.contains(d) by {
            let j = choose|j: int| 0 <= j < before.len() && before[j] == d;
            assert(after[j] == d);
        }
        assert forall|i: int| 0 <= i < rest.len() implies c[i] == rest[i] by {}
        if after.len() > before.len() {
            assert(after.contains(after[before.len() as int]));
        }
        assert forall|i: int| 0 <= i < c.len() && is_line_width(#[trigger] c[i]) implies after.contains(
            says("outline-width"@, c[i]),
        ) by {
            if i < rest.len() {
                assert(is_line_width(rest[i]));
            }
        }
        assert forall|i: int| 0 <= i < c.len() && is_line_style(#[trigger] c[i]) implies after.contains(
            says("outline-style"@, c[i]),
        ) by {
            if i < rest.len() {
                assert(is_line_style(rest[i]));
            }
        }
        assert forall|i: int| 0 <= i < c.len() && (#[trigger] c[i]) is Color implies after.contains(
            says("outline-color"@, c[i]),
        ) by {
            if i < rest.len() {
                assert(rest[i] is Color);
            }
        }
    }
}

/// An outline declares the width, the style and the color that it holds, each
/// as it is written, and nothing twice.
#[verifier::rlimit(40)]
pub proof fn law_outlines_declare_their_parts(c: Seq<ValueModel>)
    ensures
        forall|i: int|
            0 <= i < c.len() && is_line_width(#[trigger] c[i]) ==> shorthand::expansion(
                "outline"@,
                c,
            ).contains(says("outline-width"@, c[i])),
        forall|i: int|
            0 <= i < c.len() && is_line_style(#[trigger] c[i]) ==> shorthand::expansion(
                "outline"@,
                c,
            ).contains(says("outline-style"@, c[i])),
        forall|i: int|
            0 <= i < c.len() && (#[trigger] c[i]) is Color ==> shorthand::expansion(
                "outline"@,
                c,
            ).contains(says("outline-color"@, c[i])),
        shorthand::expansion("outline"@, c).len() <= c.len(),
{
    lemma_outline(c);
    reveal_strlit("outline");
    reveal_strlit("margin");
    reveal_strlit("padding");
    reveal_strlit("inset");
    reveal_strlit("border-width");
    reveal_strlit("border-style");
    reveal_strlit("border-color");
    reveal_strlit("border-radius");
    reveal_strlit("margin-inline");
    reveal_strlit("margin-block");
    reveal_strlit("padding-inline");
    reveal_strlit("padding-block");
    reveal_strlit("border-inline-width");
    reveal_strlit("border-inline-style");
    reveal_strlit("border-inline-color");
    reveal_strlit("border-block-width");
    reveal_strlit("border-block-style");
    reveal_strlit("border-block-color");
    reveal_strlit("inset-inline");
    reveal_strlit("inset-block");
    reveal_strlit("margin-inline-start");
    reveal_strlit("margin-inline-end");
    reveal_strlit("margin-block-start");
    reveal_strlit("margin-block-end");
    reveal_strlit("padding-inline-start");
    reveal_strlit("padding-inline-end");
    reveal_strlit("padding-block-start");
    reveal_strlit("padding-block-end");
    reveal_strlit("inline-size");
    reveal_strlit("block-size");
    reveal_strlit("border-inline-start-width");
    reveal_strlit("border-inline-start-style");
    reveal_strlit("border-inline-start-color");
    reveal_strlit("border-inline-end-width");
    reveal_strlit("border-inline-end-style");
    reveal_strlit("border-inline-end-color");
    reveal_strlit("border-block-start-width");
    reveal_strlit("border-block-start-style");
    reveal_strlit("border-block-start-color");
    reveal_strlit("border-block-end-width");
    reveal_strlit("border-block-end-style");
    reveal_strlit("border-block-end-color");
    reveal_strlit("inset-inline-start");
    reveal_strlit("inset-inline-end");
    reveal_strlit("inset-block-start");
    reveal_strlit("inset-block-end");
    reveal_strlit("border");
    reveal_strlit("border-inline");
    reveal_strlit("border-block");
    reveal_strlit("border-inline-start");
    reveal_strlit("border-left");
    reveal_strlit("border-inline-end");
    reveal_strlit("border-right");
    reveal_strlit("border-block-start");
    reveal_strlit("border-top");
    reveal_strlit("border-block-end");
    reveal_strlit("border-bottom");
    assert("outline"@.len() == 7);
    assert("margin"@.len() == 6);
    assert("padding"@.len() == 7);
    assert("inset"@.len() == 5);
    assert("border-width"@.len() == 12);
    assert("border-style"@.len() == 12);
    assert("border-color"@.len() == 12);
    assert("border-radius"@.len() == 13);
    assert("margin-inline"@.len() == 13);
    assert("margin-block"@.len() == 12);
    assert("padding-inline"@.len() == 14);
    assert("padding-block"@.len() == 13);
    assert("border-inline-width"@.len() == 19);
    assert("border-inline-style"@.len() == 19);
    assert("border-inline-color"@.len() == 19);
    assert("border-block-width"@.len() == 18);
    assert("border-block-style"@.len() == 18);
    assert("border-block-color"@.len() == 18);
    assert("inset-inline"@.len() == 12);
    assert("inset-block"@.len() == 11);
    assert("margin-inline-start"@.len() == 19);
    assert("margin-inline-end"@.len() == 17);
    assert("margin-block-start"@.len() == 18);
    assert("margin-block-end"@.len() == 16);
    assert("padding-inline-start"@.len() == 20);
    assert("padding-inline-end"@.len() == 18);
    assert("padding-block-start"@.len() == 19);
    assert("padding-block-end"@.len() == 17);
    assert("inline-size"@.len() == 11);
    assert("block-size"@.len() == 10);
    assert("border-inline-start-width"@.len() == 25);
    assert("border-inline-start-style"@.len() == 25);
    assert("border-inline-start-color"@.len() == 25);
    assert("border-inline-end-width"@.len() == 23);
    assert("border-inline-end-style"@.len() == 23);
    assert("border-inline-end-color"@.len() == 23);
    assert("border-block-start-width"@.len() == 24);
    assert("border-block-start-style"@.len() == 24);
    assert("border-block-start-color"@.len() == 24);
    assert("border-block-end-width"@.len() == 22);
    assert("border-block-end-style"@.len() == 22);
    assert("border-block-end-color"@.len() == 22);
    assert("inset-inline-start"@.len() == 18);
    assert("inset-inline-end"@.len() == 16);
    assert("inset-block-start"@.len() == 17);
    assert("inset-block-end"@.len() == 15);
    assert("border"@.len() == 6);
    assert("border-inline"@.len() == 13);
    assert("border-block"@.len() == 12);
    assert("border-inline-start"@.len() == 19);
    assert("border-left"@.len() == 11);
    assert("border-inline-end"@.len() == 17);
    assert("border-right"@.len() == 12);
    assert("border-block-start"@.len() == 18);
    assert("border-top"@.len() == 10);
    assert("border-block-end"@.len() == 16);
    assert("border-bottom"@.len() == 13);
    assert("outline"@[0] == 'o');
    assert("padding"@[0] == 'p');
}

/// The properties that keep all their components keep them as one value.
#[verifier::rlimit(60)]
pub proof fn law_kept_together(c: Seq<ValueModel>)
    requires
        c.len() > 0,
    ensures
        shorthand::expansion("text-decoration"@, c) == seq![says("text-decoration"@, value::joined_model(c))],
        shorthand::expansion("background-position"@, c) == seq![says("background-position"@, value::joined_model(c))],
        shorthand::expansion("background-size"@, c) == seq![says("background-size"@, value::joined_model(c))],
        shorthand::expansion("overflow"@, c) == seq![says("overflow"@, value::joined_model(c))],
        shorthand::expansion("object-position"@, c) == seq![says("object-position"@, value::joined_model(c))],
{
    reveal_strlit("text-decoration");
    reveal_strlit("background-position");
    reveal_strlit("background-size");
    reveal_strlit("overflow");
    reveal_strlit("object-position");
    reveal_strlit("margin");
    reveal_strlit("padding");
    reveal_strlit("inset");
    reveal_strlit("border-width");
    reveal_strlit("border-style");
    reveal_strlit("border-color");
    reveal_strlit("border-radius");
    reveal_strlit("margin-inline");
    reveal_strlit("margin-block");
    reveal_strlit("padding-inline");
    reveal_strlit("padding-block");
    reveal_strlit("border-inline-width");
    reveal_strlit("border-inline-style");
    reveal_strlit("border-inline-color");
    reveal_strlit("border-block-width");
    reveal_strlit("border-block-style");
    reveal_strlit("border-block-color");
    reveal_strlit("inset-inline");
    reveal_strlit("inset-block");
    reveal_strlit("margin-inline-start");
    reveal_strlit("margin-inline-end");
    reveal_strlit("margin-block-start");
    reveal_strlit("margin-block-end");
    reveal_strlit("padding-inline-start");
    reveal_strlit("padding-inline-end");
    reveal_strlit("padding-block-start");
    reveal_strlit("padding-block-end");
    reveal_strlit("inline-size");
    reveal_strlit("block-size");
    reveal_strlit("border-inline-start-width");
    reveal_strlit("border-inline-start-style");
    reveal_strlit("border-inline-start-color");
    reveal_strlit("border-inline-end-width");
    reveal_strlit("border-inline-end-style");
    reveal_strlit("border-inline-end-color");
    reveal_strlit("border-block-start-width");
    reveal_strlit("border-block-start-style");
    reveal_strlit("border-block-start-color");
    reveal_strlit("border-block-end-width");
    reveal_strlit("border-block-end-style");
    reveal_strlit("border-block-end-color");
    reveal_strlit("inset-inline-start");
    reveal_strlit("inset-inline-end");
    reveal_strlit("inset-block-start");
    reveal_strlit("inset-block-end");
    reveal_strlit("border");
    reveal_strlit("border-inline");
    reveal_strlit("border-block");
    reveal_strlit("border-inline-start");
    reveal_strlit("border-left");
    reveal_strlit("border-inline-end");
    reveal_strlit("border-right");
    reveal_strlit("border-block-start");
    reveal_strlit("border-top");
    reveal_strlit("border-block-end");
    reveal_strlit("border-bottom");
    reveal_strlit("outline");
    assert("text-decoration"@.len() == 15);
    assert("background-position"@.len() == 19);
    assert("background-size"@.len() == 15);
    assert("overflow"@.len() == 8);
    assert("object-position"@.len() == 15);
    assert("margin"@.len() == 6);
    assert("padding"@.len() == 7);
    assert("inset"@.len() == 5);
    assert("border-width"@.len() == 12);
    assert("border-style"@.len() == 12);
    assert("border-color"@.len() == 12);
    assert("border-radius"@.len() == 13);
    assert("margin-inline"@.len() == 13);
    assert("margin-block"@.len() == 12);
    assert("padding-inline"@.len() == 14);
    assert("padding-block"@.len() == 13);
    assert("border-inline-width"@.len() == 19);
    assert("border-inline-style"@.len() == 19);
    assert("border-inline-color"@.len() == 19);
    assert("border-block-width"@.len() == 18);
    assert("border-block-style"@.len() == 18);
    assert("border-block-color"@.len() == 18);
    assert("inset-inline"@.len() == 12);
    assert("inset-block"@.len() == 11);
    assert("margin-inline-start"@.len() == 19);
    assert("margin-inline-end"@.len() == 17);
    assert("margin-block-start"@.len() == 18);
    assert("margin-block-end"@.len() == 16);
    assert("padding-inline-start"@.len() == 20);
    assert("padding-inline-end"@.len() == 18);
    assert("padding-block-start"@.len() == 19);
    assert("padding-block-end"@.len() == 17);
    assert("inline-size"@.len() == 11);
    assert("block-size"@.len() == 10);
    assert("border-inline-start-width"@.len() == 25);
    assert("border-inline-start-style"@.len() == 25);
    assert("border-inline-start-color"@.len() == 25);
    assert("border-inline-end-width"@.len() == 23);
    assert("border-inline-end-style"@.len() == 23);
    assert("border-inline-end-color"@.len() == 23);
    assert("border-block-start-width"@.len() == 24);
    assert("border-block-start-style"@.len() == 24);
    assert("border-block-start-color"@.len() == 24);
    assert("border-block-end-width"@.len() == 22);
    assert("border-block-end-style"@.len() == 22);
    assert("border-block-end-color"@.len() == 22);
    assert("inset-inline-start"@.len() == 18);
    assert("inset-inline-end"@.len() == 16);
    assert("inset-block-start"@.len() == 17);
    assert("inset-block-end"@.len() == 15);
    assert("border"@.len() == 6);
    assert("border-inline"@.len() == 13);
    assert("border-block"@.len() == 12);
    assert("border-inline-start"@.len() == 19);
    assert("border-left"@.len() == 11);
    assert("border-inline-end"@.len() == 17);
    assert("border-right"@.len() == 12);
    assert("border-block-start"@.len() == 18);
    assert("border-top"@.len() == 10);
    assert("border-block-end"@.len() == 16);
    assert("border-bottom"@.len() == 13);
    assert("outline"@.len() == 7);
    assert("text-decoration"@[0] == 't');
    assert("background-size"@[0] == 'b');
    assert("object-position"@[0] == 'o');
    assert("inset-block-end"@[0] == 'i');
    assert("background-position"@[1] == 'a');
    assert("border-inline-width"@[1] == 'o');
    assert("border-inline-style"@[1] == 'o');
    assert("border-inline-color"@[1] == 'o');
    assert("background-position"@[0] == 'b');
    assert("margin-inline-start"@[0] == 'm');
    assert("padding-block-start"@[0] == 'p');
    assert("border-inline-start"@[1] == 'o');
}

/// A property that is no shorthand keeps its first component.
#[verifier::rlimit(100)]
pub proof fn law_longhands_keep_their_first_component(c: Seq<ValueModel>)
    requires
        c.len() > 0,
    ensures
        shorthand::expansion("color"@, c) == seq![says("color"@, c[0])],
        shorthand::expansion("background-color"@, c) == seq![says("background-color"@, c[0])],
        shorthand::expansion("width"@, c) == seq![says("width"@, c[0])],
        shorthand::expansion("height"@, c) == seq![says("height"@, c[0])],
        shorthand::expansion("min-width"@, c) == seq![says("min-width"@, c[0])],
        shorthand::expansion("max-width"@, c) == seq![says("max-width"@, c[0])],
        shorthand::expansion("display"@, c) == seq![says("display"@, c[0])],
        shorthand::expansion("position"@, c) == seq![says("position"@, c[0])],
        shorthand::expansion("opacity"@, c) == seq![says("opacity"@, c[0])],
        shorthand::expansion("z-index"@, c) == seq![says("z-index"@, c[0])],
        shorthand::expansion("font-size"@, c) == seq![says("font-size"@, c[0])],
        shorthand::expansion("font-weight"@, c) == seq![says("font-weight"@, c[0])],
        shorthand::expansion("font-style"@, c) == seq![says("font-style"@, c[0])],
        shorthand::expansion("line-height"@, c) == seq![says("line-height"@, c[0])],
        shorthand::expansion("text-align"@, c) == seq![says("text-align"@, c[0])],
{
    reveal_strlit("color");
    reveal_strlit("background-color");
    reveal_strlit("width");
    reveal_strlit("height");
    reveal_strlit("min-width");
    reveal_strlit("max-width");
    reveal_strlit("display");
    reveal_strlit("position");
    reveal_strlit("opacity");
    reveal_strlit("z-index");
    reveal_strlit("font-size");
    reveal_strlit("font-weight");
    reveal_strlit("font-style");
    reveal_strlit("line-height");
    reveal_strlit("text-align");
    reveal_strlit("margin");
    reveal_strlit("padding");
    reveal_strlit("inset");
    reveal_strlit("border-width");
    reveal_strlit("border-style");
    reveal_strlit("border-color");
    reveal_strlit("border-radius");
    reveal_strlit("margin-inline");
    reveal_strlit("margin-block");
    reveal_strlit("padding-inline");
    reveal_strlit("padding-block");
    reveal_strlit("border-inline-width");
    reveal_strlit("border-inline-style");
    reveal_strlit("border-inline-color");
    reveal_strlit("border-block-width");
    reveal_strlit("border-block-style");
    reveal_strlit("border-block-color");
    reveal_strlit("inset-inline");
    reveal_strlit("inset-block");
    reveal_strlit("margin-inline-start");
    reveal_strlit("margin-inline-end");
    reveal_strlit("margin-block-start");
    reveal_strlit("margin-block-end");
    reveal_strlit("padding-inline-start");
    reveal_strlit("padding-inline-end");
    reveal_strlit("padding-block-start");
    reveal_strlit("padding-block-end");
    reveal_strlit("inline-size");
    reveal_strlit("block-size");
    reveal_strlit("border-inline-start-width");
    reveal_strlit("border-inline-start-style");
    reveal_strlit("border-inline-start-color");
    reveal_strlit("border-inline-end-width");
    reveal_strlit("border-inline-end-style");
    reveal_strlit("border-inline-end-color");
    reveal_strlit("border-block-start-width");
    reveal_strlit("border-block-start-style");
    reveal_strlit("border-block-start-color");
    reveal_strlit("border-block-end-width");
    reveal_strlit("border-block-end-style");
    reveal_strlit("border-block-end-color");
    reveal_strlit("inset-inline-start");
    reveal_strlit("inset-inline-end");
    reveal_strlit("inset-block-start");
    reveal_strlit("inset-block-end");
    reveal_strlit("border");
    reveal_strlit("border-inline");
    reveal_strlit("border-block");
    reveal_strlit("border-inline-start");
    reveal_strlit("border-left");
    reveal_strlit("border-inline-end");
    reveal_strlit("border-right");
    reveal_strlit("border-block-start");
    reveal_strlit("border-top");
    reveal_strlit("border-block-end");
    reveal_strlit("border-bottom");
    reveal_strlit("outline");
    reveal_strlit("text-decoration");
    reveal_strlit("background-position");
    reveal_strlit("background-size");
    reveal_strlit("overflow");
    reveal_strlit("object-position");
    reveal_strlit("flex");
    reveal_strlit("background");
    assert("color"@.len() == 5);
    assert("background-color"@.len() == 16);
    assert("width"@.len() == 5);
    assert("height"@.len() == 6);
    assert("min-width"@.len() == 9);
    assert("max-width"@.len() == 9);
    assert("display"@.len() == 7);
    assert("position"@.len() == 8);
    assert("opacity"@.len() == 7);
    assert("z-index"@.len() == 7);
    assert("font-size"@.len() == 9);
    assert("font-weight"@.len() == 11);
    assert("font-style"@.len() == 10);
    assert("line-height"@.len() == 11);
    assert("text-align"@.len() == 10);
    assert("margin"@.len() == 6);
    assert("padding"@.len() == 7);
    assert("inset"@.len() == 5);
    assert("border-width"@.len() == 12);
    assert("border-style"@.len() == 12);
    assert("border-color"@.len() == 12);
    assert("border-radius"@.len() == 13);
    assert("margin-inline"@.len() == 13);
    assert("margin-block"@.len() == 12);
    assert("padding-inline"@.len() == 14);
    assert("padding-block"@.len() == 13);
    assert("border-inline-width"@.len() == 19);
    assert("border-inline-style"@.len() == 19);
    assert("border-inline-color"@.len() == 19);
    assert("border-block-width"@.len() == 18);
    assert("border-block-style"@.len() == 18);
    assert("border-block-color"@.len() == 18);
    assert("inset-inline"@.len() == 12);
    assert("inset-block"@.len() == 11);
    assert("margin-inline-start"@.len() == 19);
    assert("margin-inline-end"@.len() == 17);
    assert("margin-block-start"@.len() == 18);
    assert("margin-block-end"@.len() == 16);
    assert("padding-inline-start"@.len() == 20);
    assert("padding-inline-end"@.len() == 18);
    assert("padding-block-start"@.len() == 19);
    assert("padding-block-end"@.len() == 17);
    assert("inline-size"@.len() == 11);
    assert("block-size"@.len() == 10);
    assert("border-inline-start-width"@.len() == 25);
    assert("border-inline-start-style"@.len() == 25);
    assert("border-inline-start-color"@.len() == 25);
    assert("border-inline-end-width"@.len() == 23);
    assert("border-inline-end-style"@.len() == 23);
    assert("border-inline-end-color"@.len() == 23);
    assert("border-block-start-width"@.len() == 24);
    assert("border-block-start-style"@.len() == 24);
    assert("border-block-start-color"@.len() == 24);
    assert("border-block-end-width"@.len() == 22);
    assert("border-block-end-style"@.len() == 22);
    assert("border-block-end-color"@.len() == 22);
    assert("inset-inline-start"@.len() == 18);
    assert("inset-inline-end"@.len() == 16);
    assert("inset-block-start"@.len() == 17);
    assert("inset-block-end"@.len() == 15);
    assert("border"@.len() == 6);
    assert("border-inline"@.len() == 13);
    assert("border-block"@.len() == 12);
    assert("border-inline-start"@.len() == 19);
    assert("border-left"@.len() == 11);
    assert("border-inline-end"@.len() == 17);
    assert("border-right"@.len() == 12);
    assert("border-block-start"@.len() == 18);
    assert("border-top"@.len() == 10);
    assert("border-block-end"@.len() == 16);
    assert("border-bottom"@.len() == 13);
    assert("outline"@.len() == 7);
    assert("text-decoration"@.len() == 15);
    assert("background-position"@.len() == 19);
    assert("background-size"@.len() == 15);
    assert("overflow"@.len() == 8);
    assert("object-position"@.len() == 15);
    assert("flex"@.len() == 4);
    assert("background"@.len() == 10);
    assert("color"@[0] == 'c');
    assert("width"@[0] == 'w');
    assert("inset"@[0] == 'i');
    assert("background-color"@[0] == 'b');
    assert("margin-block-end"@[0] == 'm');
    assert("inset-inline-end"@[0] == 'i');
    assert("background-color"@[1] == 'a');
    assert("border-block-end"@[1] == 'o');
    assert("height"@[0] == 'h');
    assert("margin"@[0] == 'm');
    assert("border"@[0] == 'b');
    assert("min-width"@[1] == 'i');
    assert("max-width"@[1] == 'a');
    assert("min-width"@[0] == 'm');
    assert("font-size"@[0] == 'f');
    assert("max-width"@[0] == 'm');
    assert("display"@[0] == 'd');
    assert("opacity"@[0] == 'o');
    assert("z-index"@[0] == 'z');
    assert("padding"@[0] == 'p');
    assert("outline"@[0] == 'o');
    assert("position"@[0] == 'p');
    assert("overflow"@[0] == 'o');
    assert("opacity"@[1] == 'p');
    assert("outline"@[1] == 'u');
    assert("font-weight"@[0] == 'f');
    assert("line-height"@[0] == 'l');
    assert("inset-block"@[0] == 'i');
    assert("inline-size"@[0] == 'i');
    assert("border-left"@[0] == 'b');
    assert("font-style"@[0] == 'f');
    assert("text-align"@[0] == 't');
    assert("block-size"@[0] == 'b');
    assert("border-top"@[0] == 'b');
    assert("background"@[0] == 'b');
}

/// A property that is no shorthand keeps its first component.
#[verifier::rlimit(100)]
pub proof fn law_more_longhands_keep_their_first_component(c: Seq<ValueModel>)
    requires
        c.len() > 0,
    ensures
        shorthand::expansion("white-space"@, c) == seq![says("white-space"@, c[0])],
        shorthand::expansion("float"@, c) == seq![says("float"@, c[0])],
        shorthand::expansion("clear"@, c) == seq![says("clear"@, c[0])],
        shorthand::expansion("visibility"@, c) == seq![says("visibility"@, c[0])],
        shorthand::expansion("cursor"@, c) == seq![says("cursor"@, c[0])],
        shorthand::expansion("left"@, c) == seq![says("left"@, c[0])],
        shorthand::expansion("top"@, c) == seq![says("top"@, c[0])],
        shorthand::expansion("right"@, c) == seq![says("right"@, c[0])],
        shorthand::expansion("bottom"@, c) == seq![says("bottom"@, c[0])],
        shorthand::expansion("margin-left"@, c) == seq![says("margin-left"@, c[0])],
        shorthand::expansion("padding-top"@, c) == seq![says("padding-top"@, c[0])],
        shorthand::expansion("border-left-width"@, c) == seq![says("border-left-width"@, c[0])],
        shorthand::expansion("flex-direction"@, c) == seq![says("flex-direction"@, c[0])],
        shorthand::expansion("justify-content"@, c) == seq![says("justify-content"@, c[0])],
        shorthand::expansion("align-items"@, c) == seq![says("align-items"@, c[0])],
{
    reveal_strlit("white-space");
    reveal_strlit("float");
    reveal_strlit("clear");
    reveal_strlit("visibility");
    reveal_strlit("cursor");
    reveal_strlit("left");
    reveal_strlit("top");
    reveal_strlit("right");
    reveal_strlit("bottom");
    reveal_strlit("margin-left");
    reveal_strlit("padding-top");
    reveal_strlit("border-left-width");
    reveal_strlit("flex-direction");
    reveal_strlit("justify-content");
    reveal_strlit("align-items");
    reveal_strlit("margin");
    reveal_strlit("padding");
    reveal_strlit("inset");
    reveal_strlit("border-width");
    reveal_strlit("border-style");
    reveal_strlit("border-color");
    reveal_strlit("border-radius");
    reveal_strlit("margin-inline");
    reveal_strlit("margin-block");
    reveal_strlit("padding-inline");
    reveal_strlit("padding-block");
    reveal_strlit("border-inline-width");
    reveal_strlit("border-inline-style");
    reveal_strlit("border-inline-color");
    reveal_strlit("border-block-width");
    reveal_strlit("border-block-style");
    reveal_strlit("border-block-color");
    reveal_strlit("inset-inline");
    reveal_strlit("inset-block");
    reveal_strlit("margin-inline-start");
    reveal_strlit("margin-inline-end");
    reveal_strlit("margin-block-start");
    reveal_strlit("margin-block-end");
    reveal_strlit("padding-inline-start");
    reveal_strlit("padding-inline-end");
    reveal_strlit("padding-block-start");
    reveal_strlit("padding-block-end");
    reveal_strlit("inline-size");
    reveal_strlit("block-size");
    reveal_strlit("border-inline-start-width");
    reveal_strlit("border-inline-start-style");
    reveal_strlit("border-inline-start-color");
    reveal_strlit("border-inline-end-width");
    reveal_strlit("border-inline-end-style");
    reveal_strlit("border-inline-end-color");
    reveal_strlit("border-block-start-width");
    reveal_strlit("border-block-start-style");
    reveal_strlit("border-block-start-color");
    reveal_strlit("border-block-end-width");
    reveal_strlit("border-block-end-style");
    reveal_strlit("border-block-end-color");
    reveal_strlit("inset-inline-start");
    reveal_strlit("inset-inline-end");
    reveal_strlit("inset-block-start");
    reveal_strlit("inset-block-end");
    reveal_strlit("border");
    reveal_strlit("border-inline");
    reveal_strlit("border-block");
    reveal_strlit("border-inline-start");
    reveal_strlit("border-left");
    reveal_strlit("border-inline-end");
    reveal_strlit("border-right");
    reveal_strlit("border-block-start");
    reveal_strlit("border-top");
    reveal_strlit("border-block-end");
    reveal_strlit("border-bottom");
    reveal_strlit("outline");
    reveal_strlit("text-decoration");
    reveal_strlit("background-position");
    reveal_strlit("background-size");
    reveal_strlit("overflow");
    reveal_strlit("object-position");
    reveal_strlit("flex");
    reveal_strlit("background");
    assert("white-space"@.len() == 11);
    assert("float"@.len() == 5);
    assert("clear"@.len() == 5);
    assert("visibility"@.len() == 10);
    assert("cursor"@.len() == 6);
    assert("left"@.len() == 4);
    assert("top"@.len() == 3);
    assert("right"@.len() == 5);
    assert("bottom"@.len() == 6);
    assert("margin-left"@.len() == 11);
    assert("padding-top"@.len() == 11);
    assert("border-left-width"@.len() == 17);
    assert("flex-direction"@.len() == 14);
    assert("justify-content"@.len() == 15);
    assert("align-items"@.len() == 11);
    assert("margin"@.len() == 6);
    assert("padding"@.len() == 7);
    assert("inset"@.len() == 5);
    assert("border-width"@.len() == 12);
    assert("border-style"@.len() == 12);
    assert("border-color"@.len() == 12);
    assert("border-radius"@.len() == 13);
    assert("margin-inline"@.len() == 13);
    assert("margin-block"@.len() == 12);
    assert("padding-inline"@.len() == 14);
    assert("padding-block"@.len() == 13);
    assert("border-inline-width"@.len() == 19);
    assert("border-inline-style"@.len() == 19);
    assert("border-inline-color"@.len() == 19);
    assert("border-block-width"@.len() == 18);
    assert("border-block-style"@.len() == 18);
    assert("border-block-color"@.len() == 18);
    assert("inset-inline"@.len() == 12);
    assert("inset-block"@.len() == 11);
    assert("margin-inline-start"@.len() == 19);
    assert("margin-inline-end"@.len() == 17);
    assert("margin-block-start"@.len() == 18);
    assert("margin-block-end"@.len() == 16);
    assert("padding-inline-start"@.len() == 20);
    assert("padding-inline-end"@.len() == 18);
    assert("padding-block-start"@.len() == 19);
    assert("padding-block-end"@.len() == 17);
    assert("inline-size"@.len() == 11);
    assert("block-size"@.len() == 10);
    assert("border-inline-start-width"@.len() == 25);
    assert("border-inline-start-style"@.len() == 25);
    assert("border-inline-start-color"@.len() == 25);
    assert("border-inline-end-width"@.len() == 23);
    assert("border-inline-end-style"@.len() == 23);
    assert("border-inline-end-color"@.len() == 23);
    assert("border-block-start-width"@.len() == 24);
    assert("border-block-start-style"@.len() == 24);
    assert("border-block-start-color"@.len() == 24);
    assert("border-block-end-width"@.len() == 22);
    assert("border-block-end-style"@.len() == 22);
    assert("border-block-end-color"@.len() == 22);
    assert("inset-inline-start"@.len() == 18);
    assert("inset-inline-end"@.len() == 16);
    assert("inset-block-start"@.len() == 17);
    assert("inset-block-end"@.len() == 15);
    assert("border"@.len() == 6);
    assert("border-inline"@.len() == 13);
    assert("border-block"@.len() == 12);
    assert("border-inline-start"@.len() == 19);
    assert("border-left"@.len() == 11);
    assert("border-inline-end"@.len() == 17);
    assert("border-right"@.len() == 12);
    assert("border-block-start"@.len() == 18);
    assert("border-top"@.len() == 10);
    assert("border-block-end"@.len() == 16);
    assert("border-bottom"@.len() == 13);
    assert("outline"@.len() == 7);
    assert("text-decoration"@.len() == 15);
    assert("background-position"@.len() == 19);
    assert("background-size"@.len() == 15);
    assert("overflow"@.len() == 8);
    assert("object-position"@.len() == 15);
    assert("flex"@.len() == 4);
    assert("background"@.len() == 10);
    assert("white-space"@[0] == 'w');
    assert("margin-left"@[0] == 'm');
    assert("padding-top"@[0] == 'p');
    assert("align-items"@[0] == 'a');
    assert("inset-block"@[0] == 'i');
    assert("inline-size"@[0] == 'i');
    assert("border-left"@[0] == 'b');
    assert("float"@[0] == 'f');
    assert("clear"@[0] == 'c');
    assert("right"@[0] == 'r');
    assert("inset"@[0] == 'i');
    assert("visibility"@[0] == 'v');
    assert("block-size"@[0] == 'b');
    assert("border-top"@[0] == 'b');
    assert("background"@[0] == 'b');
    assert("cursor"@[0] == 'c');
    assert("bottom"@[0] == 'b');
    assert("margin"@[0] == 'm');
    assert("border"@[0] == 'b');
    assert("left"@[0] == 'l');
    assert("flex"@[0] == 'f');
    assert("bottom"@[2] == 't');
    assert("border"@[2] == 'r');
    assert("border-left-width"@[0] == 'b');
    assert("margin-inline-end"@[0] == 'm');
    assert("padding-block-end"@[0] == 'p');
    assert("inset-block-start"@[0] == 'i');
    assert("border-left-width"@[7] == 'l');
    assert("border-inline-end"@[7] == 'i');
    assert("flex-direction"@[0] == 'f');
    assert("padding-inline"@[0] == 'p');
    assert("justify-content"@[0] == 'j');
    assert("inset-block-end"@[0] == 'i');
    assert("text-decoration"@[0] == 't');
    assert("background-size"@[0] == 'b');
    assert("object-position"@[0] == 'o');
}

/// `flex` sets the factors of growing and shrinking and the basis. `none` is
/// rigid, `auto` fully flexible and `initial` only shrinks. A leading number is
/// the factor of growing; a second number is that of shrinking, which is one
/// where none is given; what is no number is the basis.
#[verifier::rlimit(60)]
pub proof fn law_flex_reads_its_factors(c: Seq<ValueModel>)
    requires
        c.len() > 0,
    ensures
        ({
            let d = shorthand::expansion("flex"@, c);
            let zero = ValueModel::Number(NumberModel { literal: seq!['0'], scale: Scale::One });
            let one = ValueModel::Number(NumberModel { literal: seq!['1'], scale: Scale::One });
            &&& c[0] == ValueModel::Keyword("none"@) ==> d == seq![
                says("flex-grow"@, zero),
                says("flex-shrink"@, zero),
            ]
            &&& c[0] == ValueModel::Keyword("auto"@) ==> d == seq![
                says("flex-grow"@, one),
                says("flex-shrink"@, one),
            ]
            &&& c[0] == ValueModel::Keyword("initial"@) ==> d == seq![
                says("flex-grow"@, zero),
                says("flex-shrink"@, one),
            ]
            &&& c[0] is Number && c.len() == 1 ==> d == seq![
                says("flex-grow"@, c[0]),
                says("flex-shrink"@, one),
            ]
            &&& c[0] is Number && c.len() > 1 && (c[1] is Keyword || c[1] is Function) ==> d == seq![
                says("flex-grow"@, c[0]),
                says("flex-shrink"@, one),
                says("flex-basis"@, c[1]),
            ]
            &&& c[0] is Number && c.len() == 2 && c[1] is Number ==> d == seq![
                says("flex-grow"@, c[0]),
                says("flex-shrink"@, c[1]),
            ]
            &&& c[0] is Number && c.len() > 2 && c[1] is Number && (c[2] is Keyword || c[2] is Function)
                ==> d == seq![
                says("flex-grow"@, c[0]),
                says("flex-shrink"@, c[1]),
                says("flex-basis"@, c[2]),
            ]
            &&& c[0] is Number && c.len() > 1 && (c[1] matches ValueModel::Length(n, unit)
                && !crate::css::number::zero(n.literal, n.scale)) ==> d == seq![
                says("flex-grow"@, c[0]),
                says("flex-shrink"@, one),
                says("flex-basis"@, c[1]),
            ]
            &&& c[0] is Number && c.len() == 2 && (c[1] matches ValueModel::Length(n, unit)
                && crate::css::number::zero(n.literal, n.scale)) ==> d == seq![
                says("flex-grow"@, c[0]),
                says("flex-shrink"@, zero),
            ]
        }),
{
    reveal_strlit("flex");
    reveal_strlit("margin");
    reveal_strlit("padding");
    reveal_strlit("inset");
    reveal_strlit("border-width");
    reveal_strlit("border-style");
    reveal_strlit("border-color");
    reveal_strlit("border-radius");
    reveal_strlit("margin-inline");
    reveal_strlit("margin-block");
    reveal_strlit("padding-inline");
    reveal_strlit("padding-block");
    reveal_strlit("border-inline-width");
    reveal_strlit("border-inline-style");
    reveal_strlit("border-inline-color");
    reveal_strlit("border-block-width");
    reveal_strlit("border-block-style");
    reveal_strlit("border-block-color");
    reveal_strlit("inset-inline");
    reveal_strlit("inset-block");
    reveal_strlit("margin-inline-start");
    reveal_strlit("margin-inline-end");
    reveal_strlit("margin-block-start");
    reveal_strlit("margin-block-end");
    reveal_strlit("padding-inline-start");
    reveal_strlit("padding-inline-end");
    reveal_strlit("padding-block-start");
    reveal_strlit("padding-block-end");
    reveal_strlit("inline-size");
    reveal_strlit("block-size");
    reveal_strlit("border-inline-start-width");
    reveal_strlit("border-inline-start-style");
    reveal_strlit("border-inline-start-color");
    reveal_strlit("border-inline-end-width");
    reveal_strlit("border-inline-end-style");
    reveal_strlit("border-inline-end-color");
    reveal_strlit("border-block-start-width");
    reveal_strlit("border-block-start-style");
    reveal_strlit("border-block-start-color");
    reveal_strlit("border-block-end-width");
    reveal_strlit("border-block-end-style");
    reveal_strlit("border-block-end-color");
    reveal_strlit("inset-inline-start");
    reveal_strlit("inset-inline-end");
    reveal_strlit("inset-block-start");
    reveal_strlit("inset-block-end");
    reveal_strlit("border");
    reveal_strlit("border-inline");
    reveal_strlit("border-block");
    reveal_strlit("border-inline-start");
    reveal_strlit("border-left");
    reveal_strlit("border-inline-end");
    reveal_strlit("border-right");
    reveal_strlit("border-block-start");
    reveal_strlit("border-top");
    reveal_strlit("border-block-end");
    reveal_strlit("border-bottom");
    reveal_strlit("outline");
    reveal_strlit("text-decoration");
    reveal_strlit("background-position");
    reveal_strlit("background-size");
    reveal_strlit("overflow");
    reveal_strlit("object-position");
    assert("flex"@.len() == 4);
    assert("margin"@.len() == 6);
    assert("padding"@.len() == 7);
    assert("inset"@.len() == 5);
    assert("border-width"@.len() == 12);
    assert("border-style"@.len() == 12);
    assert("border-color"@.len() == 12);
    assert("border-radius"@.len() == 13);
    assert("margin-inline"@.len() == 13);
    assert("margin-block"@.len() == 12);
    assert("padding-inline"@.len() == 14);
    assert("padding-block"@.len() == 13);
    assert("border-inline-width"@.len() == 19);
    assert("border-inline-style"@.len() == 19);
    assert("border-inline-color"@.len() == 19);
    assert("border-block-width"@.len() == 18);
    assert("border-block-style"@.len() == 18);
    assert("border-block-color"@.len() == 18);
    assert("inset-inline"@.len() == 12);
    assert("inset-block"@.len() == 11);
    assert("margin-inline-start"@.len() == 19);
    assert("margin-inline-end"@.len() == 17);
    assert("margin-block-start"@.len() == 18);
    assert("margin-block-end"@.len() == 16);
    assert("padding-inline-start"@.len() == 20);
    assert("padding-inline-end"@.len() == 18);
    assert("padding-block-start"@.len() == 19);
    assert("padding-block-end"@.len() == 17);
    assert("inline-size"@.len() == 11);
    assert("block-size"@.len() == 10);
    assert("border-inline-start-width"@.len() == 25);
    assert("border-inline-start-style"@.len() == 25);
    assert("border-inline-start-color"@.len() == 25);
    assert("border-inline-end-width"@.len() == 23);
    assert("border-inline-end-style"@.len() == 23);
    assert("border-inline-end-color"@.len() == 23);
    assert("border-block-start-width"@.len() == 24);
    assert("border-block-start-style"@.len() == 24);
    assert("border-block-start-color"@.len() == 24);
    assert("border-block-end-width"@.len() == 22);
    assert("border-block-end-style"@.len() == 22);
    assert("border-block-end-color"@.len() == 22);
    assert("inset-inline-start"@.len() == 18);
    assert("inset-inline-end"@.len() == 16);
    assert("inset-block-start"@.len() == 17);
    assert("inset-block-end"@.len() == 15);
    assert("border"@.len() == 6);
    assert("border-inline"@.len() == 13);
    assert("border-block"@.len() == 12);
    assert("border-inline-start"@.len() == 19);
    assert("border-left"@.len() == 11);
    assert("border-inline-end"@.len() == 17);
    assert("border-right"@.len() == 12);
    assert("border-block-start"@.len() == 18);
    assert("border-top"@.len() == 10);
    assert("border-block-end"@.len() == 16);
    assert("border-bottom"@.len() == 13);
    assert("outline"@.len() == 7);
    assert("text-decoration"@.len() == 15);
    assert("background-position"@.len() == 19);
    assert("background-size"@.len() == 15);
    assert("overflow"@.len() == 8);
    assert("object-position"@.len() == 15);
    reveal_strlit("none");
    reveal_strlit("auto");
    reveal_strlit("initial");
    reveal_strlit("0");
    reveal_strlit("1");
    assert("none"@[0] == 'n' && "auto"@[0] == 'a' && "initial"@.len() == 7);
    assert("none"@.len() == 4 && "auto"@.len() == 4);
    assert("0"@ =~= seq!['0']);
    assert("1"@ =~= seq!['1']);
}

} // verus!
