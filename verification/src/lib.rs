//! A line-oriented annotation engine for an indentation-delimited script
//! file: it locates decision-point blocks ("menus"), infers narrative
//! metadata for each choice by pattern matching over nearby lines, and
//! rewrites each choice's display text with inline annotations.

pub mod document;
pub mod modder;
pub mod text;
