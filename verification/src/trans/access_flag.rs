//! The access flags of a method as words.

use vstd::prelude::*;
use vstd::string::StringExecFns;
use crate::trans::text::{join, joined, string_views};

verus! {

pub const ACC_PUBLIC: u16 = 0x0001;

pub const ACC_PRIVATE: u16 = 0x0002;

pub const ACC_PROTECTED: u16 = 0x0004;

pub const ACC_STATIC: u16 = 0x0008;

pub const ACC_FINAL: u16 = 0x0010;

pub const ACC_SYNCHRONIZED: u16 = 0x0020;

pub const ACC_BRIDGE: u16 = 0x0040;

pub const ACC_VARARGS: u16 = 0x0080;

pub const ACC_NATIVE: u16 = 0x0100;

pub const ACC_ABSTRACT: u16 = 0x0400;

pub const ACC_STRICT: u16 = 0x0800;

pub const ACC_SYNTHETIC: u16 = 0x1000;

/// Whether the flag `mask` is set in `flags`.
pub open spec fn has_flag(flags: u16, mask: u16) -> bool {
    flags & mask != 0
}

/// The word `word` if `present`, and nothing else.
pub open spec fn word_if(present: bool, word: Seq<char>) -> Seq<Seq<char>> {
    if present {
        seq![word]
    } else {
        Seq::empty()
    }
}

/// The modifiers of a method as the source language writes them, in the
/// order in which it lists them.
pub open spec fn method_modifiers(flags: u16) -> Seq<Seq<char>> {
    word_if(has_flag(flags, ACC_PUBLIC), "public"@) + word_if(
        has_flag(flags, ACC_PROTECTED),
        "protected"@,
    ) + word_if(has_flag(flags, ACC_PRIVATE), "private"@) + word_if(
        has_flag(flags, ACC_ABSTRACT),
        "abstract"@,
    ) + word_if(has_flag(flags, ACC_STATIC), "static"@) + word_if(
        has_flag(flags, ACC_FINAL),
        "final"@,
    ) + word_if(has_flag(flags, ACC_SYNCHRONIZED), "synchronized"@) + word_if(
        has_flag(flags, ACC_NATIVE),
        "native"@,
    ) + word_if(has_flag(flags, ACC_STRICT), "strictfp"@)
}

/// The flags of a method by their names in the class file format, in the
/// order of their bits.
pub open spec fn method_flag_names(flags: u16) -> Seq<Seq<char>> {
    word_if(has_flag(flags, ACC_PUBLIC), "ACC_PUBLIC"@) + word_if(
        has_flag(flags, ACC_PRIVATE),
        "ACC_PRIVATE"@,
    ) + word_if(has_flag(flags, ACC_PROTECTED), "ACC_PROTECTED"@) + word_if(
        has_flag(flags, ACC_STATIC),
        "ACC_STATIC"@,
    ) + word_if(has_flag(flags, ACC_FINAL), "ACC_FINAL"@) + word_if(
        has_flag(flags, ACC_SYNCHRONIZED),
        "ACC_SYNCHRONIZED"@,
    ) + word_if(has_flag(flags, ACC_BRIDGE), "ACC_BRIDGE"@) + word_if(
        has_flag(flags, ACC_VARARGS),
        "ACC_VARARGS"@,
    ) + word_if(has_flag(flags, ACC_NATIVE), "ACC_NATIVE"@) + word_if(
        has_flag(flags, ACC_ABSTRACT),
        "ACC_ABSTRACT"@,
    ) + word_if(has_flag(flags, ACC_STRICT), "ACC_STRICT"@) + word_if(
        has_flag(flags, ACC_SYNTHETIC),
        "ACC_SYNTHETIC"@,
    )
}

/// Adds `word` to `words` if the flag `mask` is set in `flags`.
fn push_if(words: &mut Vec<String>, flags: u16, mask: u16, word: &str)
    ensures
        string_views(final(words)@) == string_views(old(words)@) + word_if(
            has_flag(flags, mask),
            word@,
        ),
{
    if flags & mask != 0 {
        words.push(String::from_str(word));
        assert(string_views(words@) =~= string_views(old(words)@) + seq![word@]);
    } else {
        assert(string_views(words@) =~= string_views(old(words)@) + Seq::<Seq<char>>::empty());
    }
}

/// Whether the flag `static` is set in `flags`.
pub fn is_static(flags: u16) -> (r: bool)
    ensures
        r == has_flag(flags, ACC_STATIC),
{
    flags & ACC_STATIC != 0
}

/// The access flags of a method, to be told in words.
pub struct AccessFlagsTranslator {
    pub flags: u16,
}

impl AccessFlagsTranslator {
    pub fn new(flags: u16) -> (t: AccessFlagsTranslator)
        ensures
            t.flags == flags,
    {
        AccessFlagsTranslator { flags }
    }

    /// The modifiers of the method as the source language writes them,
    /// with one space between each two.
    pub fn method_access_flags(&self) -> (text: String)
        ensures
            text@ == joined(method_modifiers(self.flags), " "@),
    {
        let flags = self.flags;
        let mut words: Vec<String> = Vec::new();
        assert(string_views(words@) =~= Seq::<Seq<char>>::empty());
        push_if(&mut words, flags, ACC_PUBLIC, "public");
        push_if(&mut words, flags, ACC_PROTECTED, "protected");
        push_if(&mut words, flags, ACC_PRIVATE, "private");
        push_if(&mut words, flags, ACC_ABSTRACT, "abstract");
        push_if(&mut words, flags, ACC_STATIC, "static");
        push_if(&mut words, flags, ACC_FINAL, "final");
        push_if(&mut words, flags, ACC_SYNCHRONIZED, "synchronized");
        push_if(&mut words, flags, ACC_NATIVE, "native");
        push_if(&mut words, flags, ACC_STRICT, "strictfp");
        assert(string_views(words@) =~= method_modifiers(flags));
        join(&words, " ")
    }

    /// The flags of the method by their names in the class file format,
    /// with a comma and a space between each two.
    pub fn access_flag_inner(&self) -> (text: String)
        ensures
            text@ == joined(method_flag_names(self.flags), ", "@),
    {
        let flags = self.flags;
        let mut words: Vec<String> = Vec::new();
        assert(string_views(words@) =~= Seq::<Seq<char>>::empty());
        push_if(&mut words, flags, ACC_PUBLIC, "ACC_PUBLIC");
        push_if(&mut words, flags, ACC_PRIVATE, "ACC_PRIVATE");
        push_if(&mut words, flags, ACC_PROTECTED, "ACC_PROTECTED");
        push_if(&mut words, flags, ACC_STATIC, "ACC_STATIC");
        push_if(&mut words, flags, ACC_FINAL, "ACC_FINAL");
        push_if(&mut words, flags, ACC_SYNCHRONIZED, "ACC_SYNCHRONIZED");
        push_if(&mut words, flags, ACC_BRIDGE, "ACC_BRIDGE");
        push_if(&mut words, flags, ACC_VARARGS, "ACC_VARARGS");
        push_if(&mut words, flags, ACC_NATIVE, "ACC_NATIVE");
        push_if(&mut words, flags, ACC_ABSTRACT, "ACC_ABSTRACT");
        push_if(&mut words, flags, ACC_STRICT, "ACC_STRICT");
        push_if(&mut words, flags, ACC_SYNTHETIC, "ACC_SYNTHETIC");
        assert(string_views(words@) =~= method_flag_names(flags));
        join(&words, ", ")
    }
}

} // verus!
