//! How a recorded click and typed text are delivered on playback once the
//! recorded Accessibility target has (or has not) been found again: a click
//! with a semantic target never falls back to its old screen coordinates.
use vstd::prelude::*;
use crate::model::{MouseButton, SemanticTarget};
use crate::semantic::{
    click_action, click_label, law_controls_are_pressed_natively, semantic_action_for_click, semantic_target_name, target_name,
    unresolved_click_label,
};

verus! {

/// How the pointer reaches a click.
#[derive(Debug, Clone, Copy, PartialEq, Eq, Structural)]
pub enum ClickApproach {
    /// Replay the recorded approach path to the recorded point.
    RecordedPath,
    /// Move straight to the point of the element found again.
    ToResolvedElement,
    /// The element found again has no point: only wait the click's delay.
    WaitInPlace,
}

/// How a click is finally delivered.
#[derive(Debug, Clone, Copy)]
pub enum ClickDelivery<'a> {
    /// Post a physical click at the recorded coordinates.
    AtRecordedPoint,
    /// Post a physical click at the recorded relative position inside the
    /// bounds the element has now.
    InsideElement,
    /// Perform this native Accessibility action on the element.
    NativeAction(&'a str),
    /// Stop playback: the element can be neither clicked nor activated.
    Refuse,
}

/// A click delivery with the native action named by its characters.
pub enum DeliveryPlan {
    AtRecordedPoint,
    InsideElement,
    NativeAction(Seq<char>),
    Refuse,
}

/// The plan a delivery carries out.
pub open spec fn plan_of(d: ClickDelivery) -> DeliveryPlan {
    match d {
        ClickDelivery::AtRecordedPoint => DeliveryPlan::AtRecordedPoint,
        ClickDelivery::InsideElement => DeliveryPlan::InsideElement,
        ClickDelivery::NativeAction(a) => DeliveryPlan::NativeAction(a@),
        ClickDelivery::Refuse => DeliveryPlan::Refuse,
    }
}

/// Why playback stops before touching a semantic target.
#[derive(Debug, Clone, Copy, PartialEq, Eq, Structural)]
pub enum TargetRefusal {
    /// A click's element could not be found again.
    UnresolvedClick,
    /// A click's element has no bounds and did not take its native action.
    UnclickableTarget,
    /// The text field to type into could not be found again.
    UnresolvedText,
    /// macOS did not focus the text field.
    UnfocusedText,
}

/// The message playback stops with.
pub open spec fn refusal_message(kind: TargetRefusal, t: SemanticTarget) -> Seq<char> {
    match kind {
        TargetRefusal::UnresolvedClick => "Stopped before clicking because the semantic target could not be resolved safely: "@
            + click_label(t),
        TargetRefusal::UnclickableTarget => "The resolved target has no clickable screen bounds and did not accept its native action: "@
            + target_name(t),
        TargetRefusal::UnresolvedText => "Stopped before typing because the semantic text target could not be resolved safely: "@
            + target_name(t),
        TargetRefusal::UnfocusedText => "Stopped before typing because macOS did not focus the intended text field: "@
            + target_name(t),
    }
}

pub fn target_refusal_message(kind: TargetRefusal, target: &SemanticTarget) -> (r: String)
    ensures
        r@ == refusal_message(kind, *target),
{
    let (lead, name) = match kind {
        TargetRefusal::UnresolvedClick => (
            "Stopped before clicking because the semantic target could not be resolved safely: ",
            unresolved_click_label(target),
        ),
        TargetRefusal::UnclickableTarget => (
            "The resolved target has no clickable screen bounds and did not accept its native action: ",
            semantic_target_name(target),
        ),
        TargetRefusal::UnresolvedText => (
            "Stopped before typing because the semantic text target could not be resolved safely: ",
            semantic_target_name(target),
        ),
        TargetRefusal::UnfocusedText => (
            "Stopped before typing because macOS did not focus the intended text field: ",
            semantic_target_name(target),
        ),
    };
    proof {
        reveal_strlit(
            "Stopped before clicking because the semantic target could not be resolved safely: ",
        );
        reveal_strlit(
            "The resolved target has no clickable screen bounds and did not accept its native action: ",
        );
        reveal_strlit(
            "Stopped before typing because the semantic text target could not be resolved safely: ",
        );
        reveal_strlit("Stopped before typing because macOS did not focus the intended text field: ");
    }
    let mut message = String::from_str(lead);
    message.append(name);
    message
}

/// The route of a click: a recorded target must have been found again
/// (`resolved` tells whether the element found has a point); a click without
/// a target follows its recorded approach path.
pub open spec fn click_route_of(has_target: bool, resolved: Option<bool>) -> Option<ClickApproach> {
    if !has_target {
        Some(ClickApproach::RecordedPath)
    } else {
        match resolved {
            None => None,
            Some(true) => Some(ClickApproach::ToResolvedElement),
            Some(false) => Some(ClickApproach::WaitInPlace),
        }
    }
}

/// Decides how the pointer approaches a click, or refuses the click when its
/// recorded target was not found again, before any input is posted.
pub fn click_route(target: &Option<SemanticTarget>, resolved: Option<bool>) -> (r: Result<
    ClickApproach,
    String,
>)
    requires
        target is None ==> resolved is None,
    ensures
        match click_route_of(target is Some, resolved) {
            Some(a) => r == Ok::<ClickApproach, String>(a),
            None => r is Err && r->Err_0@ == refusal_message(
                TargetRefusal::UnresolvedClick,
                target->0,
            ),
        },
{
    match target {
        None => Ok(ClickApproach::RecordedPath),
        Some(t) => match resolved {
            None => Err(target_refusal_message(TargetRefusal::UnresolvedClick, t)),
            Some(true) => Ok(ClickApproach::ToResolvedElement),
            Some(false) => Ok(ClickApproach::WaitInPlace),
        },
    }
}

/// How a click is delivered: at the recorded point only when no target was
/// recorded; for a primary click, through the native action that matches the
/// click count when the element advertises one; else inside the element when
/// it has bounds; else not at all.
pub open spec fn delivery_of(
    target: Option<SemanticTarget>,
    element_actions: Seq<String>,
    has_activation_point: bool,
    button: MouseButton,
    clicks: u8,
) -> DeliveryPlan {
    match target {
        None => DeliveryPlan::AtRecordedPoint,
        Some(t) => if button == MouseButton::Left && click_action(t, element_actions, clicks) is Some {
            DeliveryPlan::NativeAction(click_action(t, element_actions, clicks)->0)
        } else if has_activation_point {
            DeliveryPlan::InsideElement
        } else {
            DeliveryPlan::Refuse
        },
    }
}

/// Decides how a click whose approach completed is delivered. For a click
/// with a target, `element_actions` are the native actions its element found
/// again advertises, and `has_activation_point` tells whether the recorded
/// relative position lies in bounds the element has now.
pub fn click_delivery<'a>(
    target: &Option<SemanticTarget>,
    element_actions: &'a Vec<String>,
    has_activation_point: bool,
    button: MouseButton,
    clicks: u8,
) -> (r: ClickDelivery<'a>)
    ensures
        plan_of(r) == delivery_of(*target, element_actions@, has_activation_point, button, clicks),
{
    match target {
        None => ClickDelivery::AtRecordedPoint,
        Some(t) => {
            if button == MouseButton::Left {
                if let Some(action) = semantic_action_for_click(t, element_actions, clicks) {
                    return ClickDelivery::NativeAction(action);
                }
            }
            if has_activation_point {
                ClickDelivery::InsideElement
            } else {
                ClickDelivery::Refuse
            }
        },
    }
}

/// What follows when the element did not accept its native action: a
/// physical click inside it when it has bounds, else nothing.
pub open spec fn fallback_of(has_activation_point: bool) -> DeliveryPlan {
    if has_activation_point {
        DeliveryPlan::InsideElement
    } else {
        DeliveryPlan::Refuse
    }
}

pub fn delivery_after_refused_action<'a>(has_activation_point: bool) -> (r: ClickDelivery<'a>)
    ensures
        plan_of(r) == fallback_of(has_activation_point),
{
    if has_activation_point {
        ClickDelivery::InsideElement
    } else {
        ClickDelivery::Refuse
    }
}

/// A click recorded with a semantic target is never posted at its recorded
/// screen coordinates: it is refused before any input when its element is not
/// found again, and otherwise goes through a native action, inside the
/// element, or not at all; so does the fallback of a refused native action.
pub proof fn law_semantic_clicks_never_use_old_coordinates(
    target: Option<SemanticTarget>,
    resolved: Option<bool>,
    element_actions: Seq<String>,
    has_activation_point: bool,
    button: MouseButton,
    clicks: u8,
)
    requires
        target is Some,
    ensures
        click_route_of(true, resolved) != Some(ClickApproach::RecordedPath),
        resolved is None ==> click_route_of(true, resolved) is None,
        delivery_of(target, element_actions, has_activation_point, button, clicks)
            != DeliveryPlan::AtRecordedPoint,
        fallback_of(has_activation_point) != DeliveryPlan::AtRecordedPoint,
{
}

/// Controls and documents get their native action when it matches the
/// recorded click count, and only for a primary-button click; every other
/// element found again with bounds gets a physical click inside it.
pub proof fn law_native_actions_serve_matching_primary_clicks(
    target: SemanticTarget,
    element_actions: Seq<String>,
    has_activation_point: bool,
    button: MouseButton,
    clicks: u8,
)
    ensures
        delivery_of(Some(target), element_actions, has_activation_point, button, clicks) is NativeAction
            <==> (button == MouseButton::Left && click_action(target, element_actions, clicks) is Some),
        !(button == MouseButton::Left && click_action(target, element_actions, clicks) is Some)
            && has_activation_point ==> delivery_of(
            Some(target),
            element_actions,
            has_activation_point,
            button,
            clicks,
        ) == DeliveryPlan::InsideElement,
{
}


/// Typed text goes ahead only when it has no recorded target, or its target
/// was found again (`focused` is `Some`) and macOS focused it.
pub open spec fn text_entry_refusal(has_target: bool, focused: Option<bool>) -> Option<TargetRefusal> {
    if !has_target {
        None
    } else {
        match focused {
            None => Some(TargetRefusal::UnresolvedText),
            Some(false) => Some(TargetRefusal::UnfocusedText),
            Some(true) => None,
        }
    }
}

/// Decides, before any character is typed, whether text entry may go ahead.
/// For a text with a target, `focused` is `None` when the target was not
/// found again, else whether macOS focused it.
pub fn check_text_entry(target: &Option<SemanticTarget>, focused: Option<bool>) -> (r: Result<
    (),
    String,
>)
    requires
        target is None ==> focused is None,
    ensures
        match text_entry_refusal(target is Some, focused) {
            None => r is Ok,
            Some(kind) => r is Err && r->Err_0@ == refusal_message(kind, target->0),
        },
{
    match target {
        None => Ok(()),
        Some(t) => match focused {
            None => Err(target_refusal_message(TargetRefusal::UnresolvedText, t)),
            Some(false) => Err(target_refusal_message(TargetRefusal::UnfocusedText, t)),
            Some(true) => Ok(()),
        },
    }
}


/// A single primary click on a button, menu item, checkbox, radio button or
/// Dock item whose element advertises `AXPress` is delivered as `AXPress`,
/// whether or not the element has bounds.
pub proof fn law_controls_get_their_press(
    target: SemanticTarget,
    element_actions: Seq<String>,
    has_activation_point: bool,
)
    requires
        target.role@ == "AXButton"@ || target.role@ == "AXMenuItem"@ || target.role@
            == "AXCheckBox"@ || target.role@ == "AXRadioButton"@ || target.role@ == "AXDockItem"@,
        exists|i: int| 0 <= i < element_actions.len() && element_actions[i]@ == "AXPress"@,
    ensures
        delivery_of(Some(target), element_actions, has_activation_point, MouseButton::Left, 1)
            == DeliveryPlan::NativeAction("AXPress"@),
{
    law_controls_are_pressed_natively(target, element_actions);
}

} // verus!
