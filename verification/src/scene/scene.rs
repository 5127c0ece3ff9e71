//! Choice of the controller model drawn for each hand.
use vstd::prelude::*;
use crate::input::Hand;

verus! {

/// Player model proportions of a skin.
#[derive(Debug, PartialEq, Eq, Structural, PartialOrd, Ord, Copy, Clone)]
pub enum SkinType {
    Wide,
    Slim,
}

/// The controller models the scene holds: wide- and slim-armed, per hand.
#[derive(Debug, PartialEq, Eq, Structural, Copy, Clone)]
pub enum ControllerModel {
    WideLeft,
    WideRight,
    SlimLeft,
    SlimRight,
}

/// The controller model for `hand` when the loaded skin (if any) has type
/// `skin`: the model matches the skin's arm width, wide when no skin is
/// loaded, and always belongs to the requested hand.
pub open spec fn spec_controller_model(skin: Option<SkinType>, hand: Hand) -> ControllerModel {
    match skin {
        Some(SkinType::Slim) => match hand {
            Hand::Left => ControllerModel::SlimLeft,
            Hand::Right => ControllerModel::SlimRight,
        },
        _ => match hand {
            Hand::Left => ControllerModel::WideLeft,
            Hand::Right => ControllerModel::WideRight,
        },
    }
}

/// The controller model to draw for `hand`.
pub fn controller_model(skin: Option<SkinType>, hand: Hand) -> (m: ControllerModel)
    ensures
        m == spec_controller_model(skin, hand),
{
    let skin_type = match skin {
        Some(t) => t,
        None => SkinType::Wide,
    };
    match skin_type {
        SkinType::Wide => match hand {
            Hand::Left => ControllerModel::WideLeft,
            Hand::Right => ControllerModel::WideRight,
        },
        SkinType::Slim => match hand {
            Hand::Left => ControllerModel::SlimLeft,
            Hand::Right => ControllerModel::SlimRight,
        },
    }
}

} // verus!
