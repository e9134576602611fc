use vstd::prelude::*;

pub mod auto;

pub mod commands;
pub mod contact;
pub mod gear;
pub mod hula;
pub mod jgma;
pub mod kinematics;
pub mod matrix;
pub mod note;
pub mod text;
