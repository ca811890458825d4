//! A verified core for a small Java virtual machine.
//!
//! The machine side holds the object cells that every runtime value lives
//! in ([`oop`]), the class area with its field-slot assignment and its
//! initialization protocol ([`class`]), the loading of a class from the
//! bytes of its class file ([`loader`]), the heap and the classes as one
//! state ([`runtime`]), operand stacks, frames and the unwinding of
//! exceptions ([`stack`], [`frame`], [`thread`]), calls between Java and
//! native code ([`java_call`]), and the native methods of
//! `java.lang.System` and `sun.misc.Unsafe` with their registry
//! ([`native`], [`bootstrap`]).
//!
//! The tool side reads and writes class files ([`classfile`]) and tells
//! their methods as text: the instruction decoder, the listing of code, declarations and
//! tables ([`trans`], [`sd`]).
//!
//! Every function states what it returns and what it changes, and is
//! proved to do so. The few places where the proof rests on a library that
//! is not verified here are the template engine in [`trans::render`] and two
//! string functions of the standard library in [`trans::text`].

pub mod bootstrap;
pub mod class;
pub mod classfile;
pub mod frame;
pub mod java_call;
pub mod loader;
pub mod native;
pub mod oop;
pub mod runtime;
pub mod sd;
pub mod stack;
pub mod thread;
pub mod trans;
pub mod util;
