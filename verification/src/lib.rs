//! Verified core of a stepper-motor control library: the position and
//! direction bookkeeping of a controller, and the step schedules that the
//! controller's movements follow.

pub mod ctrl;
pub mod controller;
pub mod motion;
