//! Each synthetic logical key name, stated name by name: the key that a
//! name (in any ASCII case) stands for.

use vstd::prelude::*;
use vstd::string::StringSliceAdditionalSpecFns;
use crate::synthetic_key::{NamedKeyName, logical_names, lookup_name, lower_bytes, spec_synthetic_key};

verus! {

/// The logical key the name `key` stands for, looked up from entry `from`
/// on (kept opaque so that a long chain of lookups stays cheap).
#[verifier::opaque]
spec fn lk(key: Seq<u8>, from: int) -> Option<NamedKeyName> {
    lookup_name(logical_names(), key, from)
}

proof fn lemma_lk_skip(key: Seq<u8>, from: int)
    requires
        0 <= from < logical_names().len(),
        logical_names()[from].0.spec_bytes() != key,
    ensures
        lk(key, from) == lk(key, from + 1),
{
    reveal(lk);
}

proof fn lemma_lk_hit(key: Seq<u8>, from: int)
    requires
        0 <= from < logical_names().len(),
        logical_names()[from].0.spec_bytes() == key,
    ensures
        lk(key, from) == Some(logical_names()[from].1),
        lk(key, 0) == lookup_name(logical_names(), key, 0),
{
    reveal(lk);
}

proof fn lemma_lookup_skip<T>(table: Seq<(&str, T)>, key: Seq<u8>, from: int)
    requires
        0 <= from < table.len(),
        table[from].0.spec_bytes() != key,
    ensures
        lookup_name(table, key, from) == lookup_name(table, key, from + 1),
{
}

proof fn lemma_lookup_hit<T>(table: Seq<(&str, T)>, key: Seq<u8>, from: int)
    requires
        0 <= from < table.len(),
        table[from].0.spec_bytes() == key,
    ensures
        lookup_name(table, key, from) == Some(table[from].1),
{
}

proof fn logical_entry_0()
    ensures
        logical_names().len() == 32,
        logical_names()[0].0.spec_bytes() == seq![0x65u8, 0x6e, 0x74, 0x65, 0x72],
        logical_names()[0].1 == NamedKeyName::Enter,
{
    reveal(logical_names);
    reveal_strlit("enter");
    assert("enter"@ == seq!['e', 'n', 't', 'e', 'r']);
    vstd::string::is_ascii_spec_bytes("enter");
    assert("enter".spec_bytes() =~= seq![0x65u8, 0x6e, 0x74, 0x65, 0x72]);
}

proof fn logical_entry_1()
    ensures
        logical_names().len() == 32,
        logical_names()[1].0.spec_bytes() == seq![0x72u8, 0x65, 0x74, 0x75, 0x72, 0x6e],
        logical_names()[1].1 == NamedKeyName::Enter,
{
    reveal(logical_names);
    reveal_strlit("return");
    assert("return"@ == seq!['r', 'e', 't', 'u', 'r', 'n']);
    vstd::string::is_ascii_spec_bytes("return");
    assert("return".spec_bytes() =~= seq![0x72u8, 0x65, 0x74, 0x75, 0x72, 0x6e]);
}

proof fn logical_entry_2()
    ensures
        logical_names().len() == 32,
        logical_names()[2].0.spec_bytes() == seq![0x74u8, 0x61, 0x62],
        logical_names()[2].1 == NamedKeyName::Tab,
{
    reveal(logical_names);
    reveal_strlit("tab");
    assert("tab"@ == seq!['t', 'a', 'b']);
    vstd::string::is_ascii_spec_bytes("tab");
    assert("tab".spec_bytes() =~= seq![0x74u8, 0x61, 0x62]);
}

proof fn logical_entry_3()
    ensures
        logical_names().len() == 32,
        logical_names()[3].0.spec_bytes() == seq![0x65u8, 0x73, 0x63, 0x61, 0x70, 0x65],
        logical_names()[3].1 == NamedKeyName::Escape,
{
    reveal(logical_names);
    reveal_strlit("escape");
    assert("escape"@ == seq!['e', 's', 'c', 'a', 'p', 'e']);
    vstd::string::is_ascii_spec_bytes("escape");
    assert("escape".spec_bytes() =~= seq![0x65u8, 0x73, 0x63, 0x61, 0x70, 0x65]);
}

proof fn logical_entry_4()
    ensures
        logical_names().len() == 32,
        logical_names()[4].0.spec_bytes() == seq![0x65u8, 0x73, 0x63],
        logical_names()[4].1 == NamedKeyName::Escape,
{
    reveal(logical_names);
    reveal_strlit("esc");
    assert("esc"@ == seq!['e', 's', 'c']);
    vstd::string::is_ascii_spec_bytes("esc");
    assert("esc".spec_bytes() =~= seq![0x65u8, 0x73, 0x63]);
}

proof fn logical_entry_5()
    ensures
        logical_names().len() == 32,
        logical_names()[5].0.spec_bytes() == seq![0x62u8, 0x61, 0x63, 0x6b, 0x73, 0x70, 0x61, 0x63, 0x65],
        logical_names()[5].1 == NamedKeyName::Backspace,
{
    reveal(logical_names);
    reveal_strlit("backspace");
    assert("backspace"@ == seq!['b', 'a', 'c', 'k', 's', 'p', 'a', 'c', 'e']);
    vstd::string::is_ascii_spec_bytes("backspace");
    assert("backspace".spec_bytes() =~= seq![0x62u8, 0x61, 0x63, 0x6b, 0x73, 0x70, 0x61, 0x63, 0x65]);
}

proof fn logical_entry_6()
    ensures
        logical_names().len() == 32,
        logical_names()[6].0.spec_bytes() == seq![0x73u8, 0x70, 0x61, 0x63, 0x65],
        logical_names()[6].1 == NamedKeyName::Space,
{
    reveal(logical_names);
    reveal_strlit("space");
    assert("space"@ == seq!['s', 'p', 'a', 'c', 'e']);
    vstd::string::is_ascii_spec_bytes("space");
    assert("space".spec_bytes() =~= seq![0x73u8, 0x70, 0x61, 0x63, 0x65]);
}

proof fn logical_entry_7()
    ensures
        logical_names().len() == 32,
        logical_names()[7].0.spec_bytes() == seq![0x75u8, 0x70],
        logical_names()[7].1 == NamedKeyName::ArrowUp,
{
    reveal(logical_names);
    reveal_strlit("up");
    assert("up"@ == seq!['u', 'p']);
    vstd::string::is_ascii_spec_bytes("up");
    assert("up".spec_bytes() =~= seq![0x75u8, 0x70]);
}

proof fn logical_entry_8()
    ensures
        logical_names().len() == 32,
        logical_names()[8].0.spec_bytes() == seq![0x64u8, 0x6f, 0x77, 0x6e],
        logical_names()[8].1 == NamedKeyName::ArrowDown,
{
    reveal(logical_names);
    reveal_strlit("down");
    assert("down"@ == seq!['d', 'o', 'w', 'n']);
    vstd::string::is_ascii_spec_bytes("down");
    assert("down".spec_bytes() =~= seq![0x64u8, 0x6f, 0x77, 0x6e]);
}

proof fn logical_entry_9()
    ensures
        logical_names().len() == 32,
        logical_names()[9].0.spec_bytes() == seq![0x6cu8, 0x65, 0x66, 0x74],
        logical_names()[9].1 == NamedKeyName::ArrowLeft,
{
    reveal(logical_names);
    reveal_strlit("left");
    assert("left"@ == seq!['l', 'e', 'f', 't']);
    vstd::string::is_ascii_spec_bytes("left");
    assert("left".spec_bytes() =~= seq![0x6cu8, 0x65, 0x66, 0x74]);
}

proof fn logical_entry_10()
    ensures
        logical_names().len() == 32,
        logical_names()[10].0.spec_bytes() == seq![0x72u8, 0x69, 0x67, 0x68, 0x74],
        logical_names()[10].1 == NamedKeyName::ArrowRight,
{
    reveal(logical_names);
    reveal_strlit("right");
    assert("right"@ == seq!['r', 'i', 'g', 'h', 't']);
    vstd::string::is_ascii_spec_bytes("right");
    assert("right".spec_bytes() =~= seq![0x72u8, 0x69, 0x67, 0x68, 0x74]);
}

proof fn logical_entry_11()
    ensures
        logical_names().len() == 32,
        logical_names()[11].0.spec_bytes() == seq![0x68u8, 0x6f, 0x6d, 0x65],
        logical_names()[11].1 == NamedKeyName::Home,
{
    reveal(logical_names);
    reveal_strlit("home");
    assert("home"@ == seq!['h', 'o', 'm', 'e']);
    vstd::string::is_ascii_spec_bytes("home");
    assert("home".spec_bytes() =~= seq![0x68u8, 0x6f, 0x6d, 0x65]);
}

proof fn logical_entry_12()
    ensures
        logical_names().len() == 32,
        logical_names()[12].0.spec_bytes() == seq![0x65u8, 0x6e, 0x64],
        logical_names()[12].1 == NamedKeyName::End,
{
    reveal(logical_names);
    reveal_strlit("end");
    assert("end"@ == seq!['e', 'n', 'd']);
    vstd::string::is_ascii_spec_bytes("end");
    assert("end".spec_bytes() =~= seq![0x65u8, 0x6e, 0x64]);
}

proof fn logical_entry_13()
    ensures
        logical_names().len() == 32,
        logical_names()[13].0.spec_bytes() == seq![0x64u8, 0x65, 0x6c, 0x65, 0x74, 0x65],
        logical_names()[13].1 == NamedKeyName::Delete,
{
    reveal(logical_names);
    reveal_strlit("delete");
    assert("delete"@ == seq!['d', 'e', 'l', 'e', 't', 'e']);
    vstd::string::is_ascii_spec_bytes("delete");
    assert("delete".spec_bytes() =~= seq![0x64u8, 0x65, 0x6c, 0x65, 0x74, 0x65]);
}

proof fn logical_entry_14()
    ensures
        logical_names().len() == 32,
        logical_names()[14].0.spec_bytes() == seq![0x63u8, 0x6c, 0x65, 0x61, 0x72],
        logical_names()[14].1 == NamedKeyName::Clear,
{
    reveal(logical_names);
    reveal_strlit("clear");
    assert("clear"@ == seq!['c', 'l', 'e', 'a', 'r']);
    vstd::string::is_ascii_spec_bytes("clear");
    assert("clear".spec_bytes() =~= seq![0x63u8, 0x6c, 0x65, 0x61, 0x72]);
}

proof fn logical_entry_15()
    ensures
        logical_names().len() == 32,
        logical_names()[15].0.spec_bytes() == seq![0x6du8, 0x65, 0x6e, 0x75],
        logical_names()[15].1 == NamedKeyName::ContextMenu,
{
    reveal(logical_names);
    reveal_strlit("menu");
    assert("menu"@ == seq!['m', 'e', 'n', 'u']);
    vstd::string::is_ascii_spec_bytes("menu");
    assert("menu".spec_bytes() =~= seq![0x6du8, 0x65, 0x6e, 0x75]);
}

proof fn logical_entry_16()
    ensures
        logical_names().len() == 32,
        logical_names()[16].0.spec_bytes() == seq![0x63u8, 0x6f, 0x6e, 0x74, 0x65, 0x78, 0x74, 0x5f, 0x6d, 0x65, 0x6e, 0x75],
        logical_names()[16].1 == NamedKeyName::ContextMenu,
{
    reveal(logical_names);
    reveal_strlit("context_menu");
    assert("context_menu"@ == seq!['c', 'o', 'n', 't', 'e', 'x', 't', '_', 'm', 'e', 'n', 'u']);
    vstd::string::is_ascii_spec_bytes("context_menu");
    assert("context_menu".spec_bytes() =~= seq![0x63u8, 0x6f, 0x6e, 0x74, 0x65, 0x78, 0x74, 0x5f, 0x6d, 0x65, 0x6e, 0x75]);
}

proof fn logical_entry_17()
    ensures
        logical_names().len() == 32,
        logical_names()[17].0.spec_bytes() == seq![0x63u8, 0x6f, 0x6e, 0x74, 0x65, 0x78, 0x74, 0x6d, 0x65, 0x6e, 0x75],
        logical_names()[17].1 == NamedKeyName::ContextMenu,
{
    reveal(logical_names);
    reveal_strlit("contextmenu");
    assert("contextmenu"@ == seq!['c', 'o', 'n', 't', 'e', 'x', 't', 'm', 'e', 'n', 'u']);
    vstd::string::is_ascii_spec_bytes("contextmenu");
    assert("contextmenu".spec_bytes() =~= seq![0x63u8, 0x6f, 0x6e, 0x74, 0x65, 0x78, 0x74, 0x6d, 0x65, 0x6e, 0x75]);
}

proof fn logical_entry_18()
    ensures
        logical_names().len() == 32,
        logical_names()[18].0.spec_bytes() == seq![0x70u8, 0x61, 0x67, 0x65, 0x5f, 0x75, 0x70],
        logical_names()[18].1 == NamedKeyName::PageUp,
{
    reveal(logical_names);
    reveal_strlit("page_up");
    assert("page_up"@ == seq!['p', 'a', 'g', 'e', '_', 'u', 'p']);
    vstd::string::is_ascii_spec_bytes("page_up");
    assert("page_up".spec_bytes() =~= seq![0x70u8, 0x61, 0x67, 0x65, 0x5f, 0x75, 0x70]);
}

proof fn logical_entry_19()
    ensures
        logical_names().len() == 32,
        logical_names()[19].0.spec_bytes() == seq![0x70u8, 0x61, 0x67, 0x65, 0x75, 0x70],
        logical_names()[19].1 == NamedKeyName::PageUp,
{
    reveal(logical_names);
    reveal_strlit("pageup");
    assert("pageup"@ == seq!['p', 'a', 'g', 'e', 'u', 'p']);
    vstd::string::is_ascii_spec_bytes("pageup");
    assert("pageup".spec_bytes() =~= seq![0x70u8, 0x61, 0x67, 0x65, 0x75, 0x70]);
}

proof fn logical_entry_20()
    ensures
        logical_names().len() == 32,
        logical_names()[20].0.spec_bytes() == seq![0x70u8, 0x61, 0x67, 0x65, 0x5f, 0x64, 0x6f, 0x77, 0x6e],
        logical_names()[20].1 == NamedKeyName::PageDown,
{
    reveal(logical_names);
    reveal_strlit("page_down");
    assert("page_down"@ == seq!['p', 'a', 'g', 'e', '_', 'd', 'o', 'w', 'n']);
    vstd::string::is_ascii_spec_bytes("page_down");
    assert("page_down".spec_bytes() =~= seq![0x70u8, 0x61, 0x67, 0x65, 0x5f, 0x64, 0x6f, 0x77, 0x6e]);
}

proof fn logical_entry_21()
    ensures
        logical_names().len() == 32,
        logical_names()[21].0.spec_bytes() == seq![0x70u8, 0x61, 0x67, 0x65, 0x64, 0x6f, 0x77, 0x6e],
        logical_names()[21].1 == NamedKeyName::PageDown,
{
    reveal(logical_names);
    reveal_strlit("pagedown");
    assert("pagedown"@ == seq!['p', 'a', 'g', 'e', 'd', 'o', 'w', 'n']);
    vstd::string::is_ascii_spec_bytes("pagedown");
    assert("pagedown".spec_bytes() =~= seq![0x70u8, 0x61, 0x67, 0x65, 0x64, 0x6f, 0x77, 0x6e]);
}

proof fn logical_entry_22()
    ensures
        logical_names().len() == 32,
        logical_names()[22].0.spec_bytes() == seq![0x61u8, 0x6c, 0x74],
        logical_names()[22].1 == NamedKeyName::Alt,
{
    reveal(logical_names);
    reveal_strlit("alt");
    assert("alt"@ == seq!['a', 'l', 't']);
    vstd::string::is_ascii_spec_bytes("alt");
    assert("alt".spec_bytes() =~= seq![0x61u8, 0x6c, 0x74]);
}

proof fn logical_entry_23()
    ensures
        logical_names().len() == 32,
        logical_names()[23].0.spec_bytes() == seq![0x73u8, 0x68, 0x69, 0x66, 0x74],
        logical_names()[23].1 == NamedKeyName::Shift,
{
    reveal(logical_names);
    reveal_strlit("shift");
    assert("shift"@ == seq!['s', 'h', 'i', 'f', 't']);
    vstd::string::is_ascii_spec_bytes("shift");
    assert("shift".spec_bytes() =~= seq![0x73u8, 0x68, 0x69, 0x66, 0x74]);
}

proof fn logical_entry_24()
    ensures
        logical_names().len() == 32,
        logical_names()[24].0.spec_bytes() == seq![0x63u8, 0x6f, 0x6e, 0x74, 0x72, 0x6f, 0x6c],
        logical_names()[24].1 == NamedKeyName::Control,
{
    reveal(logical_names);
    reveal_strlit("control");
    assert("control"@ == seq!['c', 'o', 'n', 't', 'r', 'o', 'l']);
    vstd::string::is_ascii_spec_bytes("control");
    assert("control".spec_bytes() =~= seq![0x63u8, 0x6f, 0x6e, 0x74, 0x72, 0x6f, 0x6c]);
}

proof fn logical_entry_25()
    ensures
        logical_names().len() == 32,
        logical_names()[25].0.spec_bytes() == seq![0x63u8, 0x74, 0x72, 0x6c],
        logical_names()[25].1 == NamedKeyName::Control,
{
    reveal(logical_names);
    reveal_strlit("ctrl");
    assert("ctrl"@ == seq!['c', 't', 'r', 'l']);
    vstd::string::is_ascii_spec_bytes("ctrl");
    assert("ctrl".spec_bytes() =~= seq![0x63u8, 0x74, 0x72, 0x6c]);
}

proof fn logical_entry_26()
    ensures
        logical_names().len() == 32,
        logical_names()[26].0.spec_bytes() == seq![0x73u8, 0x75, 0x70, 0x65, 0x72],
        logical_names()[26].1 == NamedKeyName::Super,
{
    reveal(logical_names);
    reveal_strlit("super");
    assert("super"@ == seq!['s', 'u', 'p', 'e', 'r']);
    vstd::string::is_ascii_spec_bytes("super");
    assert("super".spec_bytes() =~= seq![0x73u8, 0x75, 0x70, 0x65, 0x72]);
}

proof fn logical_entry_27()
    ensures
        logical_names().len() == 32,
        logical_names()[27].0.spec_bytes() == seq![0x6du8, 0x65, 0x74, 0x61],
        logical_names()[27].1 == NamedKeyName::Super,
{
    reveal(logical_names);
    reveal_strlit("meta");
    assert("meta"@ == seq!['m', 'e', 't', 'a']);
    vstd::string::is_ascii_spec_bytes("meta");
    assert("meta".spec_bytes() =~= seq![0x6du8, 0x65, 0x74, 0x61]);
}

proof fn logical_entry_28()
    ensures
        logical_names().len() == 32,
        logical_names()[28].0.spec_bytes() == seq![0x63u8, 0x61, 0x70, 0x73, 0x5f, 0x6c, 0x6f, 0x63, 0x6b],
        logical_names()[28].1 == NamedKeyName::CapsLock,
{
    reveal(logical_names);
    reveal_strlit("caps_lock");
    assert("caps_lock"@ == seq!['c', 'a', 'p', 's', '_', 'l', 'o', 'c', 'k']);
    vstd::string::is_ascii_spec_bytes("caps_lock");
    assert("caps_lock".spec_bytes() =~= seq![0x63u8, 0x61, 0x70, 0x73, 0x5f, 0x6c, 0x6f, 0x63, 0x6b]);
}

proof fn logical_entry_29()
    ensures
        logical_names().len() == 32,
        logical_names()[29].0.spec_bytes() == seq![0x63u8, 0x61, 0x70, 0x73, 0x6c, 0x6f, 0x63, 0x6b],
        logical_names()[29].1 == NamedKeyName::CapsLock,
{
    reveal(logical_names);
    reveal_strlit("capslock");
    assert("capslock"@ == seq!['c', 'a', 'p', 's', 'l', 'o', 'c', 'k']);
    vstd::string::is_ascii_spec_bytes("capslock");
    assert("capslock".spec_bytes() =~= seq![0x63u8, 0x61, 0x70, 0x73, 0x6c, 0x6f, 0x63, 0x6b]);
}

proof fn logical_entry_30()
    ensures
        logical_names().len() == 32,
        logical_names()[30].0.spec_bytes() == seq![0x6eu8, 0x75, 0x6d, 0x5f, 0x6c, 0x6f, 0x63, 0x6b],
        logical_names()[30].1 == NamedKeyName::NumLock,
{
    reveal(logical_names);
    reveal_strlit("num_lock");
    assert("num_lock"@ == seq!['n', 'u', 'm', '_', 'l', 'o', 'c', 'k']);
    vstd::string::is_ascii_spec_bytes("num_lock");
    assert("num_lock".spec_bytes() =~= seq![0x6eu8, 0x75, 0x6d, 0x5f, 0x6c, 0x6f, 0x63, 0x6b]);
}

proof fn logical_entry_31()
    ensures
        logical_names().len() == 32,
        logical_names()[31].0.spec_bytes() == seq![0x6eu8, 0x75, 0x6d, 0x6c, 0x6f, 0x63, 0x6b],
        logical_names()[31].1 == NamedKeyName::NumLock,
{
    reveal(logical_names);
    reveal_strlit("numlock");
    assert("numlock"@ == seq!['n', 'u', 'm', 'l', 'o', 'c', 'k']);
    vstd::string::is_ascii_spec_bytes("numlock");
    assert("numlock".spec_bytes() =~= seq![0x6eu8, 0x75, 0x6d, 0x6c, 0x6f, 0x63, 0x6b]);
}

proof fn logical_name_enter()
    ensures
        lookup_name(logical_names(), seq![0x65u8, 0x6e, 0x74, 0x65, 0x72], 0) == Some(NamedKeyName::Enter),
{
    let key = seq![0x65u8, 0x6e, 0x74, 0x65, 0x72];

    logical_entry_0();
    lemma_lk_hit(key, 0);
}

proof fn logical_name_return()
    ensures
        lookup_name(logical_names(), seq![0x72u8, 0x65, 0x74, 0x75, 0x72, 0x6e], 0) == Some(NamedKeyName::Enter),
{
    let key = seq![0x72u8, 0x65, 0x74, 0x75, 0x72, 0x6e];
    assert(lk(key, 0) == lk(key, 1)) by {
        assert(lk(key, 0) == lk(key, 1)) by {
            logical_entry_0();
            assert(logical_names()[0].0.spec_bytes().len() == 5);
            lemma_lk_skip(key, 0);
        }
    }
    logical_entry_1();
    lemma_lk_hit(key, 1);
}

proof fn logical_name_tab()
    ensures
        lookup_name(logical_names(), seq![0x74u8, 0x61, 0x62], 0) == Some(NamedKeyName::Tab),
{
    let key = seq![0x74u8, 0x61, 0x62];
    assert(lk(key, 0) == lk(key, 2)) by {
        assert(lk(key, 0) == lk(key, 1)) by {
            logical_entry_0();
            assert(logical_names()[0].0.spec_bytes().len() == 5);
            lemma_lk_skip(key, 0);
        }
        assert(lk(key, 1) == lk(key, 2)) by {
            logical_entry_1();
            assert(logical_names()[1].0.spec_bytes().len() == 6);
            lemma_lk_skip(key, 1);
        }
    }
    logical_entry_2();
    lemma_lk_hit(key, 2);
}

proof fn logical_name_escape()
    ensures
        lookup_name(logical_names(), seq![0x65u8, 0x73, 0x63, 0x61, 0x70, 0x65], 0) == Some(NamedKeyName::Escape),
{
    let key = seq![0x65u8, 0x73, 0x63, 0x61, 0x70, 0x65];
    assert(lk(key, 0) == lk(key, 3)) by {
        assert(lk(key, 0) == lk(key, 1)) by {
            logical_entry_0();
            assert(logical_names()[0].0.spec_bytes().len() == 5);
            lemma_lk_skip(key, 0);
        }
        assert(lk(key, 1) == lk(key, 2)) by {
            logical_entry_1();
            assert(logical_names()[1].0.spec_bytes().len() == 6);
            assert(logical_names()[1].0.spec_bytes()[0] != key[0]);
            lemma_lk_skip(key, 1);
        }
        assert(lk(key, 2) == lk(key, 3)) by {
            logical_entry_2();
            assert(logical_names()[2].0.spec_bytes().len() == 3);
            lemma_lk_skip(key, 2);
        }
    }
    logical_entry_3();
    lemma_lk_hit(key, 3);
}

proof fn logical_name_esc()
    ensures
        lookup_name(logical_names(), seq![0x65u8, 0x73, 0x63], 0) == Some(NamedKeyName::Escape),
{
    let key = seq![0x65u8, 0x73, 0x63];
    assert(lk(key, 0) == lk(key, 4)) by {
        assert(lk(key, 0) == lk(key, 1)) by {
            logical_entry_0();
            assert(logical_names()[0].0.spec_bytes().len() == 5);
            lemma_lk_skip(key, 0);
        }
        assert(lk(key, 1) == lk(key, 2)) by {
            logical_entry_1();
            assert(logical_names()[1].0.spec_bytes().len() == 6);
            lemma_lk_skip(key, 1);
        }
        assert(lk(key, 2) == lk(key, 3)) by {
            logical_entry_2();
            assert(logical_names()[2].0.spec_bytes().len() == 3);
            assert(logical_names()[2].0.spec_bytes()[0] != key[0]);
            lemma_lk_skip(key, 2);
        }
        assert(lk(key, 3) == lk(key, 4)) by {
            logical_entry_3();
            assert(logical_names()[3].0.spec_bytes().len() == 6);
            lemma_lk_skip(key, 3);
        }
    }
    logical_entry_4();
    lemma_lk_hit(key, 4);
}

proof fn logical_name_backspace()
    ensures
        lookup_name(logical_names(), seq![0x62u8, 0x61, 0x63, 0x6b, 0x73, 0x70, 0x61, 0x63, 0x65], 0) == Some(NamedKeyName::Backspace),
{
    let key = seq![0x62u8, 0x61, 0x63, 0x6b, 0x73, 0x70, 0x61, 0x63, 0x65];
    assert(lk(key, 0) == lk(key, 5)) by {
        assert(lk(key, 0) == lk(key, 1)) by {
            logical_entry_0();
            assert(logical_names()[0].0.spec_bytes().len() == 5);
            lemma_lk_skip(key, 0);
        }
        assert(lk(key, 1) == lk(key, 2)) by {
            logical_entry_1();
            assert(logical_names()[1].0.spec_bytes().len() == 6);
            lemma_lk_skip(key, 1);
        }
        assert(lk(key, 2) == lk(key, 3)) by {
            logical_entry_2();
            assert(logical_names()[2].0.spec_bytes().len() == 3);
            lemma_lk_skip(key, 2);
        }
        assert(lk(key, 3) == lk(key, 4)) by {
            logical_entry_3();
            assert(logical_names()[3].0.spec_bytes().len() == 6);
            lemma_lk_skip(key, 3);
        }
        assert(lk(key, 4) == lk(key, 5)) by {
            logical_entry_4();
            assert(logical_names()[4].0.spec_bytes().len() == 3);
            lemma_lk_skip(key, 4);
        }
    }
    logical_entry_5();
    lemma_lk_hit(key, 5);
}

proof fn logical_name_space()
    ensures
        lookup_name(logical_names(), seq![0x73u8, 0x70, 0x61, 0x63, 0x65], 0) == Some(NamedKeyName::Space),
{
    let key = seq![0x73u8, 0x70, 0x61, 0x63, 0x65];
    assert(lk(key, 0) == lk(key, 6)) by {
        assert(lk(key, 0) == lk(key, 1)) by {
            logical_entry_0();
            assert(logical_names()[0].0.spec_bytes().len() == 5);
            assert(logical_names()[0].0.spec_bytes()[0] != key[0]);
            lemma_lk_skip(key, 0);
        }
        assert(lk(key, 1) == lk(key, 2)) by {
            logical_entry_1();
            assert(logical_names()[1].0.spec_bytes().len() == 6);
            lemma_lk_skip(key, 1);
        }
        assert(lk(key, 2) == lk(key, 3)) by {
            logical_entry_2();
            assert(logical_names()[2].0.spec_bytes().len() == 3);
            lemma_lk_skip(key, 2);
        }
        assert(lk(key, 3) == lk(key, 4)) by {
            logical_entry_3();
            assert(logical_names()[3].0.spec_bytes().len() == 6);
            lemma_lk_skip(key, 3);
        }
        assert(lk(key, 4) == lk(key, 5)) by {
            logical_entry_4();
            assert(logical_names()[4].0.spec_bytes().len() == 3);
            lemma_lk_skip(key, 4);
        }
        assert(lk(key, 5) == lk(key, 6)) by {
            logical_entry_5();
            assert(logical_names()[5].0.spec_bytes().len() == 9);
            lemma_lk_skip(key, 5);
        }
    }
    logical_entry_6();
    lemma_lk_hit(key, 6);
}

proof fn logical_name_up()
    ensures
        lookup_name(logical_names(), seq![0x75u8, 0x70], 0) == Some(NamedKeyName::ArrowUp),
{
    let key = seq![0x75u8, 0x70];
    assert(lk(key, 0) == lk(key, 6)) by {
        assert(lk(key, 0) == lk(key, 1)) by {
            logical_entry_0();
            assert(logical_names()[0].0.spec_bytes().len() == 5);
            lemma_lk_skip(key, 0);
        }
        assert(lk(key, 1) == lk(key, 2)) by {
            logical_entry_1();
            assert(logical_names()[1].0.spec_bytes().len() == 6);
            lemma_lk_skip(key, 1);
        }
        assert(lk(key, 2) == lk(key, 3)) by {
            logical_entry_2();
            assert(logical_names()[2].0.spec_bytes().len() == 3);
            lemma_lk_skip(key, 2);
        }
        assert(lk(key, 3) == lk(key, 4)) by {
            logical_entry_3();
            assert(logical_names()[3].0.spec_bytes().len() == 6);
            lemma_lk_skip(key, 3);
        }
        assert(lk(key, 4) == lk(key, 5)) by {
            logical_entry_4();
            assert(logical_names()[4].0.spec_bytes().len() == 3);
            lemma_lk_skip(key, 4);
        }
        assert(lk(key, 5) == lk(key, 6)) by {
            logical_entry_5();
            assert(logical_names()[5].0.spec_bytes().len() == 9);
            lemma_lk_skip(key, 5);
        }
    }
    assert(lk(key, 6) == lk(key, 7)) by {
        assert(lk(key, 6) == lk(key, 7)) by {
            logical_entry_6();
            assert(logical_names()[6].0.spec_bytes().len() == 5);
            lemma_lk_skip(key, 6);
        }
    }
    logical_entry_7();
    lemma_lk_hit(key, 7);
}

proof fn logical_name_down()
    ensures
        lookup_name(logical_names(), seq![0x64u8, 0x6f, 0x77, 0x6e], 0) == Some(NamedKeyName::ArrowDown),
{
    let key = seq![0x64u8, 0x6f, 0x77, 0x6e];
    assert(lk(key, 0) == lk(key, 6)) by {
        assert(lk(key, 0) == lk(key, 1)) by {
            logical_entry_0();
            assert(logical_names()[0].0.spec_bytes().len() == 5);
            lemma_lk_skip(key, 0);
        }
        assert(lk(key, 1) == lk(key, 2)) by {
            logical_entry_1();
            assert(logical_names()[1].0.spec_bytes().len() == 6);
            lemma_lk_skip(key, 1);
        }
        assert(lk(key, 2) == lk(key, 3)) by {
            logical_entry_2();
            assert(logical_names()[2].0.spec_bytes().len() == 3);
            lemma_lk_skip(key, 2);
        }
        assert(lk(key, 3) == lk(key, 4)) by {
            logical_entry_3();
            assert(logical_names()[3].0.spec_bytes().len() == 6);
            lemma_lk_skip(key, 3);
        }
        assert(lk(key, 4) == lk(key, 5)) by {
            logical_entry_4();
            assert(logical_names()[4].0.spec_bytes().len() == 3);
            lemma_lk_skip(key, 4);
        }
        assert(lk(key, 5) == lk(key, 6)) by {
            logical_entry_5();
            assert(logical_names()[5].0.spec_bytes().len() == 9);
            lemma_lk_skip(key, 5);
        }
    }
    assert(lk(key, 6) == lk(key, 8)) by {
        assert(lk(key, 6) == lk(key, 7)) by {
            logical_entry_6();
            assert(logical_names()[6].0.spec_bytes().len() == 5);
            lemma_lk_skip(key, 6);
        }
        assert(lk(key, 7) == lk(key, 8)) by {
            logical_entry_7();
            assert(logical_names()[7].0.spec_bytes().len() == 2);
            lemma_lk_skip(key, 7);
        }
    }
    logical_entry_8();
    lemma_lk_hit(key, 8);
}

proof fn logical_name_left()
    ensures
        lookup_name(logical_names(), seq![0x6cu8, 0x65, 0x66, 0x74], 0) == Some(NamedKeyName::ArrowLeft),
{
    let key = seq![0x6cu8, 0x65, 0x66, 0x74];
    assert(lk(key, 0) == lk(key, 6)) by {
        assert(lk(key, 0) == lk(key, 1)) by {
            logical_entry_0();
            assert(logical_names()[0].0.spec_bytes().len() == 5);
            lemma_lk_skip(key, 0);
        }
        assert(lk(key, 1) == lk(key, 2)) by {
            logical_entry_1();
            assert(logical_names()[1].0.spec_bytes().len() == 6);
            lemma_lk_skip(key, 1);
        }
        assert(lk(key, 2) == lk(key, 3)) by {
            logical_entry_2();
            assert(logical_names()[2].0.spec_bytes().len() == 3);
            lemma_lk_skip(key, 2);
        }
        assert(lk(key, 3) == lk(key, 4)) by {
            logical_entry_3();
            assert(logical_names()[3].0.spec_bytes().len() == 6);
            lemma_lk_skip(key, 3);
        }
        assert(lk(key, 4) == lk(key, 5)) by {
            logical_entry_4();
            assert(logical_names()[4].0.spec_bytes().len() == 3);
            lemma_lk_skip(key, 4);
        }
        assert(lk(key, 5) == lk(key, 6)) by {
            logical_entry_5();
            assert(logical_names()[5].0.spec_bytes().len() == 9);
            lemma_lk_skip(key, 5);
        }
    }
    assert(lk(key, 6) == lk(key, 9)) by {
        assert(lk(key, 6) == lk(key, 7)) by {
            logical_entry_6();
            assert(logical_names()[6].0.spec_bytes().len() == 5);
            lemma_lk_skip(key, 6);
        }
        assert(lk(key, 7) == lk(key, 8)) by {
            logical_entry_7();
            assert(logical_names()[7].0.spec_bytes().len() == 2);
            lemma_lk_skip(key, 7);
        }
        assert(lk(key, 8) == lk(key, 9)) by {
            logical_entry_8();
            assert(logical_names()[8].0.spec_bytes().len() == 4);
            assert(logical_names()[8].0.spec_bytes()[0] != key[0]);
            lemma_lk_skip(key, 8);
        }
    }
    logical_entry_9();
    lemma_lk_hit(key, 9);
}

proof fn logical_name_right()
    ensures
        lookup_name(logical_names(), seq![0x72u8, 0x69, 0x67, 0x68, 0x74], 0) == Some(NamedKeyName::ArrowRight),
{
    let key = seq![0x72u8, 0x69, 0x67, 0x68, 0x74];
    assert(lk(key, 0) == lk(key, 6)) by {
        assert(lk(key, 0) == lk(key, 1)) by {
            logical_entry_0();
            assert(logical_names()[0].0.spec_bytes().len() == 5);
            assert(logical_names()[0].0.spec_bytes()[0] != key[0]);
            lemma_lk_skip(key, 0);
        }
        assert(lk(key, 1) == lk(key, 2)) by {
            logical_entry_1();
            assert(logical_names()[1].0.spec_bytes().len() == 6);
            lemma_lk_skip(key, 1);
        }
        assert(lk(key, 2) == lk(key, 3)) by {
            logical_entry_2();
            assert(logical_names()[2].0.spec_bytes().len() == 3);
            lemma_lk_skip(key, 2);
        }
        assert(lk(key, 3) == lk(key, 4)) by {
            logical_entry_3();
            assert(logical_names()[3].0.spec_bytes().len() == 6);
            lemma_lk_skip(key, 3);
        }
        assert(lk(key, 4) == lk(key, 5)) by {
            logical_entry_4();
            assert(logical_names()[4].0.spec_bytes().len() == 3);
            lemma_lk_skip(key, 4);
        }
        assert(lk(key, 5) == lk(key, 6)) by {
            logical_entry_5();
            assert(logical_names()[5].0.spec_bytes().len() == 9);
            lemma_lk_skip(key, 5);
        }
    }
    assert(lk(key, 6) == lk(key, 10)) by {
        assert(lk(key, 6) == lk(key, 7)) by {
            logical_entry_6();
            assert(logical_names()[6].0.spec_bytes().len() == 5);
            assert(logical_names()[6].0.spec_bytes()[0] != key[0]);
            lemma_lk_skip(key, 6);
        }
        assert(lk(key, 7) == lk(key, 8)) by {
            logical_entry_7();
            assert(logical_names()[7].0.spec_bytes().len() == 2);
            lemma_lk_skip(key, 7);
        }
        assert(lk(key, 8) == lk(key, 9)) by {
            logical_entry_8();
            assert(logical_names()[8].0.spec_bytes().len() == 4);
            lemma_lk_skip(key, 8);
        }
        assert(lk(key, 9) == lk(key, 10)) by {
            logical_entry_9();
            assert(logical_names()[9].0.spec_bytes().len() == 4);
            lemma_lk_skip(key, 9);
        }
    }
    logical_entry_10();
    lemma_lk_hit(key, 10);
}

proof fn logical_name_home()
    ensures
        lookup_name(logical_names(), seq![0x68u8, 0x6f, 0x6d, 0x65], 0) == Some(NamedKeyName::Home),
{
    let key = seq![0x68u8, 0x6f, 0x6d, 0x65];
    assert(lk(key, 0) == lk(key, 6)) by {
        assert(lk(key, 0) == lk(key, 1)) by {
            logical_entry_0();
            assert(logical_names()[0].0.spec_bytes().len() == 5);
            lemma_lk_skip(key, 0);
        }
        assert(lk(key, 1) == lk(key, 2)) by {
            logical_entry_1();
            assert(logical_names()[1].0.spec_bytes().len() == 6);
            lemma_lk_skip(key, 1);
        }
        assert(lk(key, 2) == lk(key, 3)) by {
            logical_entry_2();
            assert(logical_names()[2].0.spec_bytes().len() == 3);
            lemma_lk_skip(key, 2);
        }
        assert(lk(key, 3) == lk(key, 4)) by {
            logical_entry_3();
            assert(logical_names()[3].0.spec_bytes().len() == 6);
            lemma_lk_skip(key, 3);
        }
        assert(lk(key, 4) == lk(key, 5)) by {
            logical_entry_4();
            assert(logical_names()[4].0.spec_bytes().len() == 3);
            lemma_lk_skip(key, 4);
        }
        assert(lk(key, 5) == lk(key, 6)) by {
            logical_entry_5();
            assert(logical_names()[5].0.spec_bytes().len() == 9);
            lemma_lk_skip(key, 5);
        }
    }
    assert(lk(key, 6) == lk(key, 11)) by {
        assert(lk(key, 6) == lk(key, 7)) by {
            logical_entry_6();
            assert(logical_names()[6].0.spec_bytes().len() == 5);
            lemma_lk_skip(key, 6);
        }
        assert(lk(key, 7) == lk(key, 8)) by {
            logical_entry_7();
            assert(logical_names()[7].0.spec_bytes().len() == 2);
            lemma_lk_skip(key, 7);
        }
        assert(lk(key, 8) == lk(key, 9)) by {
            logical_entry_8();
            assert(logical_names()[8].0.spec_bytes().len() == 4);
            assert(logical_names()[8].0.spec_bytes()[0] != key[0]);
            lemma_lk_skip(key, 8);
        }
        assert(lk(key, 9) == lk(key, 10)) by {
            logical_entry_9();
            assert(logical_names()[9].0.spec_bytes().len() == 4);
            assert(logical_names()[9].0.spec_bytes()[0] != key[0]);
            lemma_lk_skip(key, 9);
        }
        assert(lk(key, 10) == lk(key, 11)) by {
            logical_entry_10();
            assert(logical_names()[10].0.spec_bytes().len() == 5);
            lemma_lk_skip(key, 10);
        }
    }
    logical_entry_11();
    lemma_lk_hit(key, 11);
}

proof fn logical_name_end()
    ensures
        lookup_name(logical_names(), seq![0x65u8, 0x6e, 0x64], 0) == Some(NamedKeyName::End),
{
    let key = seq![0x65u8, 0x6e, 0x64];
    assert(lk(key, 0) == lk(key, 6)) by {
        assert(lk(key, 0) == lk(key, 1)) by {
            logical_entry_0();
            assert(logical_names()[0].0.spec_bytes().len() == 5);
            lemma_lk_skip(key, 0);
        }
        assert(lk(key, 1) == lk(key, 2)) by {
            logical_entry_1();
            assert(logical_names()[1].0.spec_bytes().len() == 6);
            lemma_lk_skip(key, 1);
        }
        assert(lk(key, 2) == lk(key, 3)) by {
            logical_entry_2();
            assert(logical_names()[2].0.spec_bytes().len() == 3);
            assert(logical_names()[2].0.spec_bytes()[0] != key[0]);
            lemma_lk_skip(key, 2);
        }
        assert(lk(key, 3) == lk(key, 4)) by {
            logical_entry_3();
            assert(logical_names()[3].0.spec_bytes().len() == 6);
            lemma_lk_skip(key, 3);
        }
        assert(lk(key, 4) == lk(key, 5)) by {
            logical_entry_4();
            assert(logical_names()[4].0.spec_bytes().len() == 3);
            assert(logical_names()[4].0.spec_bytes()[1] != key[1]);
            lemma_lk_skip(key, 4);
        }
        assert(lk(key, 5) == lk(key, 6)) by {
            logical_entry_5();
            assert(logical_names()[5].0.spec_bytes().len() == 9);
            lemma_lk_skip(key, 5);
        }
    }
    assert(lk(key, 6) == lk(key, 12)) by {
        assert(lk(key, 6) == lk(key, 7)) by {
            logical_entry_6();
            assert(logical_names()[6].0.spec_bytes().len() == 5);
            lemma_lk_skip(key, 6);
        }
        assert(lk(key, 7) == lk(key, 8)) by {
            logical_entry_7();
            assert(logical_names()[7].0.spec_bytes().len() == 2);
            lemma_lk_skip(key, 7);
        }
        assert(lk(key, 8) == lk(key, 9)) by {
            logical_entry_8();
            assert(logical_names()[8].0.spec_bytes().len() == 4);
            lemma_lk_skip(key, 8);
        }
        assert(lk(key, 9) == lk(key, 10)) by {
            logical_entry_9();
            assert(logical_names()[9].0.spec_bytes().len() == 4);
            lemma_lk_skip(key, 9);
        }
        assert(lk(key, 10) == lk(key, 11)) by {
            logical_entry_10();
            assert(logical_names()[10].0.spec_bytes().len() == 5);
            lemma_lk_skip(key, 10);
        }
        assert(lk(key, 11) == lk(key, 12)) by {
            logical_entry_11();
            assert(logical_names()[11].0.spec_bytes().len() == 4);
            lemma_lk_skip(key, 11);
        }
    }
    logical_entry_12();
    lemma_lk_hit(key, 12);
}

proof fn logical_name_delete()
    ensures
        lookup_name(logical_names(), seq![0x64u8, 0x65, 0x6c, 0x65, 0x74, 0x65], 0) == Some(NamedKeyName::Delete),
{
    let key = seq![0x64u8, 0x65, 0x6c, 0x65, 0x74, 0x65];
    assert(lk(key, 0) == lk(key, 6)) by {
        assert(lk(key, 0) == lk(key, 1)) by {
            logical_entry_0();
            assert(logical_names()[0].0.spec_bytes().len() == 5);
            lemma_lk_skip(key, 0);
        }
        assert(lk(key, 1) == lk(key, 2)) by {
            logical_entry_1();
            assert(logical_names()[1].0.spec_bytes().len() == 6);
            assert(logical_names()[1].0.spec_bytes()[0] != key[0]);
            lemma_lk_skip(key, 1);
        }
        assert(lk(key, 2) == lk(key, 3)) by {
            logical_entry_2();
            assert(logical_names()[2].0.spec_bytes().len() == 3);
            lemma_lk_skip(key, 2);
        }
        assert(lk(key, 3) == lk(key, 4)) by {
            logical_entry_3();
            assert(logical_names()[3].0.spec_bytes().len() == 6);
            assert(logical_names()[3].0.spec_bytes()[0] != key[0]);
            lemma_lk_skip(key, 3);
        }
        assert(lk(key, 4) == lk(key, 5)) by {
            logical_entry_4();
            assert(logical_names()[4].0.spec_bytes().len() == 3);
            lemma_lk_skip(key, 4);
        }
        assert(lk(key, 5) == lk(key, 6)) by {
            logical_entry_5();
            assert(logical_names()[5].0.spec_bytes().len() == 9);
            lemma_lk_skip(key, 5);
        }
    }
    assert(lk(key, 6) == lk(key, 12)) by {
        assert(lk(key, 6) == lk(key, 7)) by {
            logical_entry_6();
            assert(logical_names()[6].0.spec_bytes().len() == 5);
            lemma_lk_skip(key, 6);
        }
        assert(lk(key, 7) == lk(key, 8)) by {
            logical_entry_7();
            assert(logical_names()[7].0.spec_bytes().len() == 2);
            lemma_lk_skip(key, 7);
        }
        assert(lk(key, 8) == lk(key, 9)) by {
            logical_entry_8();
            assert(logical_names()[8].0.spec_bytes().len() == 4);
            lemma_lk_skip(key, 8);
        }
        assert(lk(key, 9) == lk(key, 10)) by {
            logical_entry_9();
            assert(logical_names()[9].0.spec_bytes().len() == 4);
            lemma_lk_skip(key, 9);
        }
        assert(lk(key, 10) == lk(key, 11)) by {
            logical_entry_10();
            assert(logical_names()[10].0.spec_bytes().len() == 5);
            lemma_lk_skip(key, 10);
        }
        assert(lk(key, 11) == lk(key, 12)) by {
            logical_entry_11();
            assert(logical_names()[11].0.spec_bytes().len() == 4);
            lemma_lk_skip(key, 11);
        }
    }
    assert(lk(key, 12) == lk(key, 13)) by {
        assert(lk(key, 12) == lk(key, 13)) by {
            logical_entry_12();
            assert(logical_names()[12].0.spec_bytes().len() == 3);
            lemma_lk_skip(key, 12);
        }
    }
    logical_entry_13();
    lemma_lk_hit(key, 13);
}

proof fn logical_name_clear()
    ensures
        lookup_name(logical_names(), seq![0x63u8, 0x6c, 0x65, 0x61, 0x72], 0) == Some(NamedKeyName::Clear),
{
    let key = seq![0x63u8, 0x6c, 0x65, 0x61, 0x72];
    assert(lk(key, 0) == lk(key, 6)) by {
        assert(lk(key, 0) == lk(key, 1)) by {
            logical_entry_0();
            assert(logical_names()[0].0.spec_bytes().len() == 5);
            assert(logical_names()[0].0.spec_bytes()[0] != key[0]);
            lemma_lk_skip(key, 0);
        }
        assert(lk(key, 1) == lk(key, 2)) by {
            logical_entry_1();
            assert(logical_names()[1].0.spec_bytes().len() == 6);
            lemma_lk_skip(key, 1);
        }
        assert(lk(key, 2) == lk(key, 3)) by {
            logical_entry_2();
            assert(logical_names()[2].0.spec_bytes().len() == 3);
            lemma_lk_skip(key, 2);
        }
        assert(lk(key, 3) == lk(key, 4)) by {
            logical_entry_3();
            assert(logical_names()[3].0.spec_bytes().len() == 6);
            lemma_lk_skip(key, 3);
        }
        assert(lk(key, 4) == lk(key, 5)) by {
            logical_entry_4();
            assert(logical_names()[4].0.spec_bytes().len() == 3);
            lemma_lk_skip(key, 4);
        }
        assert(lk(key, 5) == lk(key, 6)) by {
            logical_entry_5();
            assert(logical_names()[5].0.spec_bytes().len() == 9);
            lemma_lk_skip(key, 5);
        }
    }
    assert(lk(key, 6) == lk(key, 12)) by {
        assert(lk(key, 6) == lk(key, 7)) by {
            logical_entry_6();
            assert(logical_names()[6].0.spec_bytes().len() == 5);
            assert(logical_names()[6].0.spec_bytes()[0] != key[0]);
            lemma_lk_skip(key, 6);
        }
        assert(lk(key, 7) == lk(key, 8)) by {
            logical_entry_7();
            assert(logical_names()[7].0.spec_bytes().len() == 2);
            lemma_lk_skip(key, 7);
        }
        assert(lk(key, 8) == lk(key, 9)) by {
            logical_entry_8();
            assert(logical_names()[8].0.spec_bytes().len() == 4);
            lemma_lk_skip(key, 8);
        }
        assert(lk(key, 9) == lk(key, 10)) by {
            logical_entry_9();
            assert(logical_names()[9].0.spec_bytes().len() == 4);
            lemma_lk_skip(key, 9);
        }
        assert(lk(key, 10) == lk(key, 11)) by {
            logical_entry_10();
            assert(logical_names()[10].0.spec_bytes().len() == 5);
            assert(logical_names()[10].0.spec_bytes()[0] != key[0]);
            lemma_lk_skip(key, 10);
        }
        assert(lk(key, 11) == lk(key, 12)) by {
            logical_entry_11();
            assert(logical_names()[11].0.spec_bytes().len() == 4);
            lemma_lk_skip(key, 11);
        }
    }
    assert(lk(key, 12) == lk(key, 14)) by {
        assert(lk(key, 12) == lk(key, 13)) by {
            logical_entry_12();
            assert(logical_names()[12].0.spec_bytes().len() == 3);
            lemma_lk_skip(key, 12);
        }
        assert(lk(key, 13) == lk(key, 14)) by {
            logical_entry_13();
            assert(logical_names()[13].0.spec_bytes().len() == 6);
            lemma_lk_skip(key, 13);
        }
    }
    logical_entry_14();
    lemma_lk_hit(key, 14);
}

proof fn logical_name_menu()
    ensures
        lookup_name(logical_names(), seq![0x6du8, 0x65, 0x6e, 0x75], 0) == Some(NamedKeyName::ContextMenu),
{
    let key = seq![0x6du8, 0x65, 0x6e, 0x75];
    assert(lk(key, 0) == lk(key, 6)) by {
        assert(lk(key, 0) == lk(key, 1)) by {
            logical_entry_0();
            assert(logical_names()[0].0.spec_bytes().len() == 5);
            lemma_lk_skip(key, 0);
        }
        assert(lk(key, 1) == lk(key, 2)) by {
            logical_entry_1();
            assert(logical_names()[1].0.spec_bytes().len() == 6);
            lemma_lk_skip(key, 1);
        }
        assert(lk(key, 2) == lk(key, 3)) by {
            logical_entry_2();
            assert(logical_names()[2].0.spec_bytes().len() == 3);
            lemma_lk_skip(key, 2);
        }
        assert(lk(key, 3) == lk(key, 4)) by {
            logical_entry_3();
            assert(logical_names()[3].0.spec_bytes().len() == 6);
            lemma_lk_skip(key, 3);
        }
        assert(lk(key, 4) == lk(key, 5)) by {
            logical_entry_4();
            assert(logical_names()[4].0.spec_bytes().len() == 3);
            lemma_lk_skip(key, 4);
        }
        assert(lk(key, 5) == lk(key, 6)) by {
            logical_entry_5();
            assert(logical_names()[5].0.spec_bytes().len() == 9);
            lemma_lk_skip(key, 5);
        }
    }
    assert(lk(key, 6) == lk(key, 12)) by {
        assert(lk(key, 6) == lk(key, 7)) by {
            logical_entry_6();
            assert(logical_names()[6].0.spec_bytes().len() == 5);
            lemma_lk_skip(key, 6);
        }
        assert(lk(key, 7) == lk(key, 8)) by {
            logical_entry_7();
            assert(logical_names()[7].0.spec_bytes().len() == 2);
            lemma_lk_skip(key, 7);
        }
        assert(lk(key, 8) == lk(key, 9)) by {
            logical_entry_8();
            assert(logical_names()[8].0.spec_bytes().len() == 4);
            assert(logical_names()[8].0.spec_bytes()[0] != key[0]);
            lemma_lk_skip(key, 8);
        }
        assert(lk(key, 9) == lk(key, 10)) by {
            logical_entry_9();
            assert(logical_names()[9].0.spec_bytes().len() == 4);
            assert(logical_names()[9].0.spec_bytes()[0] != key[0]);
            lemma_lk_skip(key, 9);
        }
        assert(lk(key, 10) == lk(key, 11)) by {
            logical_entry_10();
            assert(logical_names()[10].0.spec_bytes().len() == 5);
            lemma_lk_skip(key, 10);
        }
        assert(lk(key, 11) == lk(key, 12)) by {
            logical_entry_11();
            assert(logical_names()[11].0.spec_bytes().len() == 4);
            assert(logical_names()[11].0.spec_bytes()[0] != key[0]);
            lemma_lk_skip(key, 11);
        }
    }
    assert(lk(key, 12) == lk(key, 15)) by {
        assert(lk(key, 12) == lk(key, 13)) by {
            logical_entry_12();
            assert(logical_names()[12].0.spec_bytes().len() == 3);
            lemma_lk_skip(key, 12);
        }
        assert(lk(key, 13) == lk(key, 14)) by {
            logical_entry_13();
            assert(logical_names()[13].0.spec_bytes().len() == 6);
            lemma_lk_skip(key, 13);
        }
        assert(lk(key, 14) == lk(key, 15)) by {
            logical_entry_14();
            assert(logical_names()[14].0.spec_bytes().len() == 5);
            lemma_lk_skip(key, 14);
        }
    }
    logical_entry_15();
    lemma_lk_hit(key, 15);
}

proof fn logical_name_context_menu()
    ensures
        lookup_name(logical_names(), seq![0x63u8, 0x6f, 0x6e, 0x74, 0x65, 0x78, 0x74, 0x5f, 0x6d, 0x65, 0x6e, 0x75], 0) == Some(NamedKeyName::ContextMenu),
{
    let key = seq![0x63u8, 0x6f, 0x6e, 0x74, 0x65, 0x78, 0x74, 0x5f, 0x6d, 0x65, 0x6e, 0x75];
    assert(lk(key, 0) == lk(key, 6)) by {
        assert(lk(key, 0) == lk(key, 1)) by {
            logical_entry_0();
            assert(logical_names()[0].0.spec_bytes().len() == 5);
            lemma_lk_skip(key, 0);
        }
        assert(lk(key, 1) == lk(key, 2)) by {
            logical_entry_1();
            assert(logical_names()[1].0.spec_bytes().len() == 6);
            lemma_lk_skip(key, 1);
        }
        assert(lk(key, 2) == lk(key, 3)) by {
            logical_entry_2();
            assert(logical_names()[2].0.spec_bytes().len() == 3);
            lemma_lk_skip(key, 2);
        }
        assert(lk(key, 3) == lk(key, 4)) by {
            logical_entry_3();
            assert(logical_names()[3].0.spec_bytes().len() == 6);
            lemma_lk_skip(key, 3);
        }
        assert(lk(key, 4) == lk(key, 5)) by {
            logical_entry_4();
            assert(logical_names()[4].0.spec_bytes().len() == 3);
            lemma_lk_skip(key, 4);
        }
        assert(lk(key, 5) == lk(key, 6)) by {
            logical_entry_5();
            assert(logical_names()[5].0.spec_bytes().len() == 9);
            lemma_lk_skip(key, 5);
        }
    }
    assert(lk(key, 6) == lk(key, 12)) by {
        assert(lk(key, 6) == lk(key, 7)) by {
            logical_entry_6();
            assert(logical_names()[6].0.spec_bytes().len() == 5);
            lemma_lk_skip(key, 6);
        }
        assert(lk(key, 7) == lk(key, 8)) by {
            logical_entry_7();
            assert(logical_names()[7].0.spec_bytes().len() == 2);
            lemma_lk_skip(key, 7);
        }
        assert(lk(key, 8) == lk(key, 9)) by {
            logical_entry_8();
            assert(logical_names()[8].0.spec_bytes().len() == 4);
            lemma_lk_skip(key, 8);
        }
        assert(lk(key, 9) == lk(key, 10)) by {
            logical_entry_9();
            assert(logical_names()[9].0.spec_bytes().len() == 4);
            lemma_lk_skip(key, 9);
        }
        assert(lk(key, 10) == lk(key, 11)) by {
            logical_entry_10();
            assert(logical_names()[10].0.spec_bytes().len() == 5);
            lemma_lk_skip(key, 10);
        }
        assert(lk(key, 11) == lk(key, 12)) by {
            logical_entry_11();
            assert(logical_names()[11].0.spec_bytes().len() == 4);
            lemma_lk_skip(key, 11);
        }
    }
    assert(lk(key, 12) == lk(key, 16)) by {
        assert(lk(key, 12) == lk(key, 13)) by {
            logical_entry_12();
            assert(logical_names()[12].0.spec_bytes().len() == 3);
            lemma_lk_skip(key, 12);
        }
        assert(lk(key, 13) == lk(key, 14)) by {
            logical_entry_13();
            assert(logical_names()[13].0.spec_bytes().len() == 6);
            lemma_lk_skip(key, 13);
        }
        assert(lk(key, 14) == lk(key, 15)) by {
            logical_entry_14();
            assert(logical_names()[14].0.spec_bytes().len() == 5);
            lemma_lk_skip(key, 14);
        }
        assert(lk(key, 15) == lk(key, 16)) by {
            logical_entry_15();
            assert(logical_names()[15].0.spec_bytes().len() == 4);
            lemma_lk_skip(key, 15);
        }
    }
    logical_entry_16();
    lemma_lk_hit(key, 16);
}

proof fn logical_name_contextmenu()
    ensures
        lookup_name(logical_names(), seq![0x63u8, 0x6f, 0x6e, 0x74, 0x65, 0x78, 0x74, 0x6d, 0x65, 0x6e, 0x75], 0) == Some(NamedKeyName::ContextMenu),
{
    let key = seq![0x63u8, 0x6f, 0x6e, 0x74, 0x65, 0x78, 0x74, 0x6d, 0x65, 0x6e, 0x75];
    assert(lk(key, 0) == lk(key, 6)) by {
        assert(lk(key, 0) == lk(key, 1)) by {
            logical_entry_0();
            assert(logical_names()[0].0.spec_bytes().len() == 5);
            lemma_lk_skip(key, 0);
        }
        assert(lk(key, 1) == lk(key, 2)) by {
            logical_entry_1();
            assert(logical_names()[1].0.spec_bytes().len() == 6);
            lemma_lk_skip(key, 1);
        }
        assert(lk(key, 2) == lk(key, 3)) by {
            logical_entry_2();
            assert(logical_names()[2].0.spec_bytes().len() == 3);
            lemma_lk_skip(key, 2);
        }
        assert(lk(key, 3) == lk(key, 4)) by {
            logical_entry_3();
            assert(logical_names()[3].0.spec_bytes().len() == 6);
            lemma_lk_skip(key, 3);
        }
        assert(lk(key, 4) == lk(key, 5)) by {
            logical_entry_4();
            assert(logical_names()[4].0.spec_bytes().len() == 3);
            lemma_lk_skip(key, 4);
        }
        assert(lk(key, 5) == lk(key, 6)) by {
            logical_entry_5();
            assert(logical_names()[5].0.spec_bytes().len() == 9);
            lemma_lk_skip(key, 5);
        }
    }
    assert(lk(key, 6) == lk(key, 12)) by {
        assert(lk(key, 6) == lk(key, 7)) by {
            logical_entry_6();
            assert(logical_names()[6].0.spec_bytes().len() == 5);
            lemma_lk_skip(key, 6);
        }
        assert(lk(key, 7) == lk(key, 8)) by {
            logical_entry_7();
            assert(logical_names()[7].0.spec_bytes().len() == 2);
            lemma_lk_skip(key, 7);
        }
        assert(lk(key, 8) == lk(key, 9)) by {
            logical_entry_8();
            assert(logical_names()[8].0.spec_bytes().len() == 4);
            lemma_lk_skip(key, 8);
        }
        assert(lk(key, 9) == lk(key, 10)) by {
            logical_entry_9();
            assert(logical_names()[9].0.spec_bytes().len() == 4);
            lemma_lk_skip(key, 9);
        }
        assert(lk(key, 10) == lk(key, 11)) by {
            logical_entry_10();
            assert(logical_names()[10].0.spec_bytes().len() == 5);
            lemma_lk_skip(key, 10);
        }
        assert(lk(key, 11) == lk(key, 12)) by {
            logical_entry_11();
            assert(logical_names()[11].0.spec_bytes().len() == 4);
            lemma_lk_skip(key, 11);
        }
    }
    assert(lk(key, 12) == lk(key, 17)) by {
        assert(lk(key, 12) == lk(key, 13)) by {
            logical_entry_12();
            assert(logical_names()[12].0.spec_bytes().len() == 3);
            lemma_lk_skip(key, 12);
        }
        assert(lk(key, 13) == lk(key, 14)) by {
            logical_entry_13();
            assert(logical_names()[13].0.spec_bytes().len() == 6);
            lemma_lk_skip(key, 13);
        }
        assert(lk(key, 14) == lk(key, 15)) by {
            logical_entry_14();
            assert(logical_names()[14].0.spec_bytes().len() == 5);
            lemma_lk_skip(key, 14);
        }
        assert(lk(key, 15) == lk(key, 16)) by {
            logical_entry_15();
            assert(logical_names()[15].0.spec_bytes().len() == 4);
            lemma_lk_skip(key, 15);
        }
        assert(lk(key, 16) == lk(key, 17)) by {
            logical_entry_16();
            assert(logical_names()[16].0.spec_bytes().len() == 12);
            lemma_lk_skip(key, 16);
        }
    }
    logical_entry_17();
    lemma_lk_hit(key, 17);
}

proof fn logical_name_page_up()
    ensures
        lookup_name(logical_names(), seq![0x70u8, 0x61, 0x67, 0x65, 0x5f, 0x75, 0x70], 0) == Some(NamedKeyName::PageUp),
{
    let key = seq![0x70u8, 0x61, 0x67, 0x65, 0x5f, 0x75, 0x70];
    assert(lk(key, 0) == lk(key, 6)) by {
        assert(lk(key, 0) == lk(key, 1)) by {
            logical_entry_0();
            assert(logical_names()[0].0.spec_bytes().len() == 5);
            lemma_lk_skip(key, 0);
        }
        assert(lk(key, 1) == lk(key, 2)) by {
            logical_entry_1();
            assert(logical_names()[1].0.spec_bytes().len() == 6);
            lemma_lk_skip(key, 1);
        }
        assert(lk(key, 2) == lk(key, 3)) by {
            logical_entry_2();
            assert(logical_names()[2].0.spec_bytes().len() == 3);
            lemma_lk_skip(key, 2);
        }
        assert(lk(key, 3) == lk(key, 4)) by {
            logical_entry_3();
            assert(logical_names()[3].0.spec_bytes().len() == 6);
            lemma_lk_skip(key, 3);
        }
        assert(lk(key, 4) == lk(key, 5)) by {
            logical_entry_4();
            assert(logical_names()[4].0.spec_bytes().len() == 3);
            lemma_lk_skip(key, 4);
        }
        assert(lk(key, 5) == lk(key, 6)) by {
            logical_entry_5();
            assert(logical_names()[5].0.spec_bytes().len() == 9);
            lemma_lk_skip(key, 5);
        }
    }
    assert(lk(key, 6) == lk(key, 12)) by {
        assert(lk(key, 6) == lk(key, 7)) by {
            logical_entry_6();
            assert(logical_names()[6].0.spec_bytes().len() == 5);
            lemma_lk_skip(key, 6);
        }
        assert(lk(key, 7) == lk(key, 8)) by {
            logical_entry_7();
            assert(logical_names()[7].0.spec_bytes().len() == 2);
            lemma_lk_skip(key, 7);
        }
        assert(lk(key, 8) == lk(key, 9)) by {
            logical_entry_8();
            assert(logical_names()[8].0.spec_bytes().len() == 4);
            lemma_lk_skip(key, 8);
        }
        assert(lk(key, 9) == lk(key, 10)) by {
            logical_entry_9();
            assert(logical_names()[9].0.spec_bytes().len() == 4);
            lemma_lk_skip(key, 9);
        }
        assert(lk(key, 10) == lk(key, 11)) by {
            logical_entry_10();
            assert(logical_names()[10].0.spec_bytes().len() == 5);
            lemma_lk_skip(key, 10);
        }
        assert(lk(key, 11) == lk(key, 12)) by {
            logical_entry_11();
            assert(logical_names()[11].0.spec_bytes().len() == 4);
            lemma_lk_skip(key, 11);
        }
    }
    assert(lk(key, 12) == lk(key, 18)) by {
        assert(lk(key, 12) == lk(key, 13)) by {
            logical_entry_12();
            assert(logical_names()[12].0.spec_bytes().len() == 3);
            lemma_lk_skip(key, 12);
        }
        assert(lk(key, 13) == lk(key, 14)) by {
            logical_entry_13();
            assert(logical_names()[13].0.spec_bytes().len() == 6);
            lemma_lk_skip(key, 13);
        }
        assert(lk(key, 14) == lk(key, 15)) by {
            logical_entry_14();
            assert(logical_names()[14].0.spec_bytes().len() == 5);
            lemma_lk_skip(key, 14);
        }
        assert(lk(key, 15) == lk(key, 16)) by {
            logical_entry_15();
            assert(logical_names()[15].0.spec_bytes().len() == 4);
            lemma_lk_skip(key, 15);
        }
        assert(lk(key, 16) == lk(key, 17)) by {
            logical_entry_16();
            assert(logical_names()[16].0.spec_bytes().len() == 12);
            lemma_lk_skip(key, 16);
        }
        assert(lk(key, 17) == lk(key, 18)) by {
            logical_entry_17();
            assert(logical_names()[17].0.spec_bytes().len() == 11);
            lemma_lk_skip(key, 17);
        }
    }
    logical_entry_18();
    lemma_lk_hit(key, 18);
}

proof fn logical_name_pageup()
    ensures
        lookup_name(logical_names(), seq![0x70u8, 0x61, 0x67, 0x65, 0x75, 0x70], 0) == Some(NamedKeyName::PageUp),
{
    let key = seq![0x70u8, 0x61, 0x67, 0x65, 0x75, 0x70];
    assert(lk(key, 0) == lk(key, 6)) by {
        assert(lk(key, 0) == lk(key, 1)) by {
            logical_entry_0();
            assert(logical_names()[0].0.spec_bytes().len() == 5);
            lemma_lk_skip(key, 0);
        }
        assert(lk(key, 1) == lk(key, 2)) by {
            logical_entry_1();
            assert(logical_names()[1].0.spec_bytes().len() == 6);
            assert(logical_names()[1].0.spec_bytes()[0] != key[0]);
            lemma_lk_skip(key, 1);
        }
        assert(lk(key, 2) == lk(key, 3)) by {
            logical_entry_2();
            assert(logical_names()[2].0.spec_bytes().len() == 3);
            lemma_lk_skip(key, 2);
        }
        assert(lk(key, 3) == lk(key, 4)) by {
            logical_entry_3();
            assert(logical_names()[3].0.spec_bytes().len() == 6);
            assert(logical_names()[3].0.spec_bytes()[0] != key[0]);
            lemma_lk_skip(key, 3);
        }
        assert(lk(key, 4) == lk(key, 5)) by {
            logical_entry_4();
            assert(logical_names()[4].0.spec_bytes().len() == 3);
            lemma_lk_skip(key, 4);
        }
        assert(lk(key, 5) == lk(key, 6)) by {
            logical_entry_5();
            assert(logical_names()[5].0.spec_bytes().len() == 9);
            lemma_lk_skip(key, 5);
        }
    }
    assert(lk(key, 6) == lk(key, 12)) by {
        assert(lk(key, 6) == lk(key, 7)) by {
            logical_entry_6();
            assert(logical_names()[6].0.spec_bytes().len() == 5);
            lemma_lk_skip(key, 6);
        }
        assert(lk(key, 7) == lk(key, 8)) by {
            logical_entry_7();
            assert(logical_names()[7].0.spec_bytes().len() == 2);
            lemma_lk_skip(key, 7);
        }
        assert(lk(key, 8) == lk(key, 9)) by {
            logical_entry_8();
            assert(logical_names()[8].0.spec_bytes().len() == 4);
            lemma_lk_skip(key, 8);
        }
        assert(lk(key, 9) == lk(key, 10)) by {
            logical_entry_9();
            assert(logical_names()[9].0.spec_bytes().len() == 4);
            lemma_lk_skip(key, 9);
        }
        assert(lk(key, 10) == lk(key, 11)) by {
            logical_entry_10();
            assert(logical_names()[10].0.spec_bytes().len() == 5);
            lemma_lk_skip(key, 10);
        }
        assert(lk(key, 11) == lk(key, 12)) by {
            logical_entry_11();
            assert(logical_names()[11].0.spec_bytes().len() == 4);
            lemma_lk_skip(key, 11);
        }
    }
    assert(lk(key, 12) == lk(key, 18)) by {
        assert(lk(key, 12) == lk(key, 13)) by {
            logical_entry_12();
            assert(logical_names()[12].0.spec_bytes().len() == 3);
            lemma_lk_skip(key, 12);
        }
        assert(lk(key, 13) == lk(key, 14)) by {
            logical_entry_13();
            assert(logical_names()[13].0.spec_bytes().len() == 6);
            assert(logical_names()[13].0.spec_bytes()[0] != key[0]);
            lemma_lk_skip(key, 13);
        }
        assert(lk(key, 14) == lk(key, 15)) by {
            logical_entry_14();
            assert(logical_names()[14].0.spec_bytes().len() == 5);
            lemma_lk_skip(key, 14);
        }
        assert(lk(key, 15) == lk(key, 16)) by {
            logical_entry_15();
            assert(logical_names()[15].0.spec_bytes().len() == 4);
            lemma_lk_skip(key, 15);
        }
        assert(lk(key, 16) == lk(key, 17)) by {
            logical_entry_16();
            assert(logical_names()[16].0.spec_bytes().len() == 12);
            lemma_lk_skip(key, 16);
        }
        assert(lk(key, 17) == lk(key, 18)) by {
            logical_entry_17();
            assert(logical_names()[17].0.spec_bytes().len() == 11);
            lemma_lk_skip(key, 17);
        }
    }
    assert(lk(key, 18) == lk(key, 19)) by {
        assert(lk(key, 18) == lk(key, 19)) by {
            logical_entry_18();
            assert(logical_names()[18].0.spec_bytes().len() == 7);
            lemma_lk_skip(key, 18);
        }
    }
    logical_entry_19();
    lemma_lk_hit(key, 19);
}

proof fn logical_name_page_down()
    ensures
        lookup_name(logical_names(), seq![0x70u8, 0x61, 0x67, 0x65, 0x5f, 0x64, 0x6f, 0x77, 0x6e], 0) == Some(NamedKeyName::PageDown),
{
    let key = seq![0x70u8, 0x61, 0x67, 0x65, 0x5f, 0x64, 0x6f, 0x77, 0x6e];
    assert(lk(key, 0) == lk(key, 6)) by {
        assert(lk(key, 0) == lk(key, 1)) by {
            logical_entry_0();
            assert(logical_names()[0].0.spec_bytes().len() == 5);
            lemma_lk_skip(key, 0);
        }
        assert(lk(key, 1) == lk(key, 2)) by {
            logical_entry_1();
            assert(logical_names()[1].0.spec_bytes().len() == 6);
            lemma_lk_skip(key, 1);
        }
        assert(lk(key, 2) == lk(key, 3)) by {
            logical_entry_2();
            assert(logical_names()[2].0.spec_bytes().len() == 3);
            lemma_lk_skip(key, 2);
        }
        assert(lk(key, 3) == lk(key, 4)) by {
            logical_entry_3();
            assert(logical_names()[3].0.spec_bytes().len() == 6);
            lemma_lk_skip(key, 3);
        }
        assert(lk(key, 4) == lk(key, 5)) by {
            logical_entry_4();
            assert(logical_names()[4].0.spec_bytes().len() == 3);
            lemma_lk_skip(key, 4);
        }
        assert(lk(key, 5) == lk(key, 6)) by {
            logical_entry_5();
            assert(logical_names()[5].0.spec_bytes().len() == 9);
            assert(logical_names()[5].0.spec_bytes()[0] != key[0]);
            lemma_lk_skip(key, 5);
        }
    }
    assert(lk(key, 6) == lk(key, 12)) by {
        assert(lk(key, 6) == lk(key, 7)) by {
            logical_entry_6();
            assert(logical_names()[6].0.spec_bytes().len() == 5);
            lemma_lk_skip(key, 6);
        }
        assert(lk(key, 7) == lk(key, 8)) by {
            logical_entry_7();
            assert(logical_names()[7].0.spec_bytes().len() == 2);
            lemma_lk_skip(key, 7);
        }
        assert(lk(key, 8) == lk(key, 9)) by {
            logical_entry_8();
            assert(logical_names()[8].0.spec_bytes().len() == 4);
            lemma_lk_skip(key, 8);
        }
        assert(lk(key, 9) == lk(key, 10)) by {
            logical_entry_9();
            assert(logical_names()[9].0.spec_bytes().len() == 4);
            lemma_lk_skip(key, 9);
        }
        assert(lk(key, 10) == lk(key, 11)) by {
            logical_entry_10();
            assert(logical_names()[10].0.spec_bytes().len() == 5);
            lemma_lk_skip(key, 10);
        }
        assert(lk(key, 11) == lk(key, 12)) by {
            logical_entry_11();
            assert(logical_names()[11].0.spec_bytes().len() == 4);
            lemma_lk_skip(key, 11);
        }
    }
    assert(lk(key, 12) == lk(key, 18)) by {
        assert(lk(key, 12) == lk(key, 13)) by {
            logical_entry_12();
            assert(logical_names()[12].0.spec_bytes().len() == 3);
            lemma_lk_skip(key, 12);
        }
        assert(lk(key, 13) == lk(key, 14)) by {
            logical_entry_13();
            assert(logical_names()[13].0.spec_bytes().len() == 6);
            lemma_lk_skip(key, 13);
        }
        assert(lk(key, 14) == lk(key, 15)) by {
            logical_entry_14();
            assert(logical_names()[14].0.spec_bytes().len() == 5);
            lemma_lk_skip(key, 14);
        }
        assert(lk(key, 15) == lk(key, 16)) by {
            logical_entry_15();
            assert(logical_names()[15].0.spec_bytes().len() == 4);
            lemma_lk_skip(key, 15);
        }
        assert(lk(key, 16) == lk(key, 17)) by {
            logical_entry_16();
            assert(logical_names()[16].0.spec_bytes().len() == 12);
            lemma_lk_skip(key, 16);
        }
        assert(lk(key, 17) == lk(key, 18)) by {
            logical_entry_17();
            assert(logical_names()[17].0.spec_bytes().len() == 11);
            lemma_lk_skip(key, 17);
        }
    }
    assert(lk(key, 18) == lk(key, 20)) by {
        assert(lk(key, 18) == lk(key, 19)) by {
            logical_entry_18();
            assert(logical_names()[18].0.spec_bytes().len() == 7);
            lemma_lk_skip(key, 18);
        }
        assert(lk(key, 19) == lk(key, 20)) by {
            logical_entry_19();
            assert(logical_names()[19].0.spec_bytes().len() == 6);
            lemma_lk_skip(key, 19);
        }
    }
    logical_entry_20();
    lemma_lk_hit(key, 20);
}

proof fn logical_name_pagedown()
    ensures
        lookup_name(logical_names(), seq![0x70u8, 0x61, 0x67, 0x65, 0x64, 0x6f, 0x77, 0x6e], 0) == Some(NamedKeyName::PageDown),
{
    let key = seq![0x70u8, 0x61, 0x67, 0x65, 0x64, 0x6f, 0x77, 0x6e];
    assert(lk(key, 0) == lk(key, 6)) by {
        assert(lk(key, 0) == lk(key, 1)) by {
            logical_entry_0();
            assert(logical_names()[0].0.spec_bytes().len() == 5);
            lemma_lk_skip(key, 0);
        }
        assert(lk(key, 1) == lk(key, 2)) by {
            logical_entry_1();
            assert(logical_names()[1].0.spec_bytes().len() == 6);
            lemma_lk_skip(key, 1);
        }
        assert(lk(key, 2) == lk(key, 3)) by {
            logical_entry_2();
            assert(logical_names()[2].0.spec_bytes().len() == 3);
            lemma_lk_skip(key, 2);
        }
        assert(lk(key, 3) == lk(key, 4)) by {
            logical_entry_3();
            assert(logical_names()[3].0.spec_bytes().len() == 6);
            lemma_lk_skip(key, 3);
        }
        assert(lk(key, 4) == lk(key, 5)) by {
            logical_entry_4();
            assert(logical_names()[4].0.spec_bytes().len() == 3);
            lemma_lk_skip(key, 4);
        }
        assert(lk(key, 5) == lk(key, 6)) by {
            logical_entry_5();
            assert(logical_names()[5].0.spec_bytes().len() == 9);
            lemma_lk_skip(key, 5);
        }
    }
    assert(lk(key, 6) == lk(key, 12)) by {
        assert(lk(key, 6) == lk(key, 7)) by {
            logical_entry_6();
            assert(logical_names()[6].0.spec_bytes().len() == 5);
            lemma_lk_skip(key, 6);
        }
        assert(lk(key, 7) == lk(key, 8)) by {
            logical_entry_7();
            assert(logical_names()[7].0.spec_bytes().len() == 2);
            lemma_lk_skip(key, 7);
        }
        assert(lk(key, 8) == lk(key, 9)) by {
            logical_entry_8();
            assert(logical_names()[8].0.spec_bytes().len() == 4);
            lemma_lk_skip(key, 8);
        }
        assert(lk(key, 9) == lk(key, 10)) by {
            logical_entry_9();
            assert(logical_names()[9].0.spec_bytes().len() == 4);
            lemma_lk_skip(key, 9);
        }
        assert(lk(key, 10) == lk(key, 11)) by {
            logical_entry_10();
            assert(logical_names()[10].0.spec_bytes().len() == 5);
            lemma_lk_skip(key, 10);
        }
        assert(lk(key, 11) == lk(key, 12)) by {
            logical_entry_11();
            assert(logical_names()[11].0.spec_bytes().len() == 4);
            lemma_lk_skip(key, 11);
        }
    }
    assert(lk(key, 12) == lk(key, 18)) by {
        assert(lk(key, 12) == lk(key, 13)) by {
            logical_entry_12();
            assert(logical_names()[12].0.spec_bytes().len() == 3);
            lemma_lk_skip(key, 12);
        }
        assert(lk(key, 13) == lk(key, 14)) by {
            logical_entry_13();
            assert(logical_names()[13].0.spec_bytes().len() == 6);
            lemma_lk_skip(key, 13);
        }
        assert(lk(key, 14) == lk(key, 15)) by {
            logical_entry_14();
            assert(logical_names()[14].0.spec_bytes().len() == 5);
            lemma_lk_skip(key, 14);
        }
        assert(lk(key, 15) == lk(key, 16)) by {
            logical_entry_15();
            assert(logical_names()[15].0.spec_bytes().len() == 4);
            lemma_lk_skip(key, 15);
        }
        assert(lk(key, 16) == lk(key, 17)) by {
            logical_entry_16();
            assert(logical_names()[16].0.spec_bytes().len() == 12);
            lemma_lk_skip(key, 16);
        }
        assert(lk(key, 17) == lk(key, 18)) by {
            logical_entry_17();
            assert(logical_names()[17].0.spec_bytes().len() == 11);
            lemma_lk_skip(key, 17);
        }
    }
    assert(lk(key, 18) == lk(key, 21)) by {
        assert(lk(key, 18) == lk(key, 19)) by {
            logical_entry_18();
            assert(logical_names()[18].0.spec_bytes().len() == 7);
            lemma_lk_skip(key, 18);
        }
        assert(lk(key, 19) == lk(key, 20)) by {
            logical_entry_19();
            assert(logical_names()[19].0.spec_bytes().len() == 6);
            lemma_lk_skip(key, 19);
        }
        assert(lk(key, 20) == lk(key, 21)) by {
            logical_entry_20();
            assert(logical_names()[20].0.spec_bytes().len() == 9);
            lemma_lk_skip(key, 20);
        }
    }
    logical_entry_21();
    lemma_lk_hit(key, 21);
}

proof fn logical_name_alt()
    ensures
        lookup_name(logical_names(), seq![0x61u8, 0x6c, 0x74], 0) == Some(NamedKeyName::Alt),
{
    let key = seq![0x61u8, 0x6c, 0x74];
    assert(lk(key, 0) == lk(key, 6)) by {
        assert(lk(key, 0) == lk(key, 1)) by {
            logical_entry_0();
            assert(logical_names()[0].0.spec_bytes().len() == 5);
            lemma_lk_skip(key, 0);
        }
        assert(lk(key, 1) == lk(key, 2)) by {
            logical_entry_1();
            assert(logical_names()[1].0.spec_bytes().len() == 6);
            lemma_lk_skip(key, 1);
        }
        assert(lk(key, 2) == lk(key, 3)) by {
            logical_entry_2();
            assert(logical_names()[2].0.spec_bytes().len() == 3);
            assert(logical_names()[2].0.spec_bytes()[0] != key[0]);
            lemma_lk_skip(key, 2);
        }
        assert(lk(key, 3) == lk(key, 4)) by {
            logical_entry_3();
            assert(logical_names()[3].0.spec_bytes().len() == 6);
            lemma_lk_skip(key, 3);
        }
        assert(lk(key, 4) == lk(key, 5)) by {
            logical_entry_4();
            assert(logical_names()[4].0.spec_bytes().len() == 3);
            assert(logical_names()[4].0.spec_bytes()[0] != key[0]);
            lemma_lk_skip(key, 4);
        }
        assert(lk(key, 5) == lk(key, 6)) by {
            logical_entry_5();
            assert(logical_names()[5].0.spec_bytes().len() == 9);
            lemma_lk_skip(key, 5);
        }
    }
    assert(lk(key, 6) == lk(key, 12)) by {
        assert(lk(key, 6) == lk(key, 7)) by {
            logical_entry_6();
            assert(logical_names()[6].0.spec_bytes().len() == 5);
            lemma_lk_skip(key, 6);
        }
        assert(lk(key, 7) == lk(key, 8)) by {
            logical_entry_7();
            assert(logical_names()[7].0.spec_bytes().len() == 2);
            lemma_lk_skip(key, 7);
        }
        assert(lk(key, 8) == lk(key, 9)) by {
            logical_entry_8();
            assert(logical_names()[8].0.spec_bytes().len() == 4);
            lemma_lk_skip(key, 8);
        }
        assert(lk(key, 9) == lk(key, 10)) by {
            logical_entry_9();
            assert(logical_names()[9].0.spec_bytes().len() == 4);
            lemma_lk_skip(key, 9);
        }
        assert(lk(key, 10) == lk(key, 11)) by {
            logical_entry_10();
            assert(logical_names()[10].0.spec_bytes().len() == 5);
            lemma_lk_skip(key, 10);
        }
        assert(lk(key, 11) == lk(key, 12)) by {
            logical_entry_11();
            assert(logical_names()[11].0.spec_bytes().len() == 4);
            lemma_lk_skip(key, 11);
        }
    }
    assert(lk(key, 12) == lk(key, 18)) by {
        assert(lk(key, 12) == lk(key, 13)) by {
            logical_entry_12();
            assert(logical_names()[12].0.spec_bytes().len() == 3);
            assert(logical_names()[12].0.spec_bytes()[0] != key[0]);
            lemma_lk_skip(key, 12);
        }
        assert(lk(key, 13) == lk(key, 14)) by {
            logical_entry_13();
            assert(logical_names()[13].0.spec_bytes().len() == 6);
            lemma_lk_skip(key, 13);
        }
        assert(lk(key, 14) == lk(key, 15)) by {
            logical_entry_14();
            assert(logical_names()[14].0.spec_bytes().len() == 5);
            lemma_lk_skip(key, 14);
        }
        assert(lk(key, 15) == lk(key, 16)) by {
            logical_entry_15();
            assert(logical_names()[15].0.spec_bytes().len() == 4);
            lemma_lk_skip(key, 15);
        }
        assert(lk(key, 16) == lk(key, 17)) by {
            logical_entry_16();
            assert(logical_names()[16].0.spec_bytes().len() == 12);
            lemma_lk_skip(key, 16);
        }
        assert(lk(key, 17) == lk(key, 18)) by {
            logical_entry_17();
            assert(logical_names()[17].0.spec_bytes().len() == 11);
            lemma_lk_skip(key, 17);
        }
    }
    assert(lk(key, 18) == lk(key, 22)) by {
        assert(lk(key, 18) == lk(key, 19)) by {
            logical_entry_18();
            assert(logical_names()[18].0.spec_bytes().len() == 7);
            lemma_lk_skip(key, 18);
        }
        assert(lk(key, 19) == lk(key, 20)) by {
            logical_entry_19();
            assert(logical_names()[19].0.spec_bytes().len() == 6);
            lemma_lk_skip(key, 19);
        }
        assert(lk(key, 20) == lk(key, 21)) by {
            logical_entry_20();
            assert(logical_names()[20].0.spec_bytes().len() == 9);
            lemma_lk_skip(key, 20);
        }
        assert(lk(key, 21) == lk(key, 22)) by {
            logical_entry_21();
            assert(logical_names()[21].0.spec_bytes().len() == 8);
            lemma_lk_skip(key, 21);
        }
    }
    logical_entry_22();
    lemma_lk_hit(key, 22);
}

proof fn logical_name_shift()
    ensures
        lookup_name(logical_names(), seq![0x73u8, 0x68, 0x69, 0x66, 0x74], 0) == Some(NamedKeyName::Shift),
{
    let key = seq![0x73u8, 0x68, 0x69, 0x66, 0x74];
    assert(lk(key, 0) == lk(key, 6)) by {
        assert(lk(key, 0) == lk(key, 1)) by {
            logical_entry_0();
            assert(logical_names()[0].0.spec_bytes().len() == 5);
            assert(logical_names()[0].0.spec_bytes()[0] != key[0]);
            lemma_lk_skip(key, 0);
        }
        assert(lk(key, 1) == lk(key, 2)) by {
            logical_entry_1();
            assert(logical_names()[1].0.spec_bytes().len() == 6);
            lemma_lk_skip(key, 1);
        }
        assert(lk(key, 2) == lk(key, 3)) by {
            logical_entry_2();
            assert(logical_names()[2].0.spec_bytes().len() == 3);
            lemma_lk_skip(key, 2);
        }
        assert(lk(key, 3) == lk(key, 4)) by {
            logical_entry_3();
            assert(logical_names()[3].0.spec_bytes().len() == 6);
            lemma_lk_skip(key, 3);
        }
        assert(lk(key, 4) == lk(key, 5)) by {
            logical_entry_4();
            assert(logical_names()[4].0.spec_bytes().len() == 3);
            lemma_lk_skip(key, 4);
        }
        assert(lk(key, 5) == lk(key, 6)) by {
            logical_entry_5();
            assert(logical_names()[5].0.spec_bytes().len() == 9);
            lemma_lk_skip(key, 5);
        }
    }
    assert(lk(key, 6) == lk(key, 12)) by {
        assert(lk(key, 6) == lk(key, 7)) by {
            logical_entry_6();
            assert(logical_names()[6].0.spec_bytes().len() == 5);
            assert(logical_names()[6].0.spec_bytes()[1] != key[1]);
            lemma_lk_skip(key, 6);
        }
        assert(lk(key, 7) == lk(key, 8)) by {
            logical_entry_7();
            assert(logical_names()[7].0.spec_bytes().len() == 2);
            lemma_lk_skip(key, 7);
        }
        assert(lk(key, 8) == lk(key, 9)) by {
            logical_entry_8();
            assert(logical_names()[8].0.spec_bytes().len() == 4);
            lemma_lk_skip(key, 8);
        }
        assert(lk(key, 9) == lk(key, 10)) by {
            logical_entry_9();
            assert(logical_names()[9].0.spec_bytes().len() == 4);
            lemma_lk_skip(key, 9);
        }
        assert(lk(key, 10) == lk(key, 11)) by {
            logical_entry_10();
            assert(logical_names()[10].0.spec_bytes().len() == 5);
            assert(logical_names()[10].0.spec_bytes()[0] != key[0]);
            lemma_lk_skip(key, 10);
        }
        assert(lk(key, 11) == lk(key, 12)) by {
            logical_entry_11();
            assert(logical_names()[11].0.spec_bytes().len() == 4);
            lemma_lk_skip(key, 11);
        }
    }
    assert(lk(key, 12) == lk(key, 18)) by {
        assert(lk(key, 12) == lk(key, 13)) by {
            logical_entry_12();
            assert(logical_names()[12].0.spec_bytes().len() == 3);
            lemma_lk_skip(key, 12);
        }
        assert(lk(key, 13) == lk(key, 14)) by {
            logical_entry_13();
            assert(logical_names()[13].0.spec_bytes().len() == 6);
            lemma_lk_skip(key, 13);
        }
        assert(lk(key, 14) == lk(key, 15)) by {
            logical_entry_14();
            assert(logical_names()[14].0.spec_bytes().len() == 5);
            assert(logical_names()[14].0.spec_bytes()[0] != key[0]);
            lemma_lk_skip(key, 14);
        }
        assert(lk(key, 15) == lk(key, 16)) by {
            logical_entry_15();
            assert(logical_names()[15].0.spec_bytes().len() == 4);
            lemma_lk_skip(key, 15);
        }
        assert(lk(key, 16) == lk(key, 17)) by {
            logical_entry_16();
            assert(logical_names()[16].0.spec_bytes().len() == 12);
            lemma_lk_skip(key, 16);
        }
        assert(lk(key, 17) == lk(key, 18)) by {
            logical_entry_17();
            assert(logical_names()[17].0.spec_bytes().len() == 11);
            lemma_lk_skip(key, 17);
        }
    }
    assert(lk(key, 18) == lk(key, 23)) by {
        assert(lk(key, 18) == lk(key, 19)) by {
            logical_entry_18();
            assert(logical_names()[18].0.spec_bytes().len() == 7);
            lemma_lk_skip(key, 18);
        }
        assert(lk(key, 19) == lk(key, 20)) by {
            logical_entry_19();
            assert(logical_names()[19].0.spec_bytes().len() == 6);
            lemma_lk_skip(key, 19);
        }
        assert(lk(key, 20) == lk(key, 21)) by {
            logical_entry_20();
            assert(logical_names()[20].0.spec_bytes().len() == 9);
            lemma_lk_skip(key, 20);
        }
        assert(lk(key, 21) == lk(key, 22)) by {
            logical_entry_21();
            assert(logical_names()[21].0.spec_bytes().len() == 8);
            lemma_lk_skip(key, 21);
        }
        assert(lk(key, 22) == lk(key, 23)) by {
            logical_entry_22();
            assert(logical_names()[22].0.spec_bytes().len() == 3);
            lemma_lk_skip(key, 22);
        }
    }
    logical_entry_23();
    lemma_lk_hit(key, 23);
}

proof fn logical_name_control()
    ensures
        lookup_name(logical_names(), seq![0x63u8, 0x6f, 0x6e, 0x74, 0x72, 0x6f, 0x6c], 0) == Some(NamedKeyName::Control),
{
    let key = seq![0x63u8, 0x6f, 0x6e, 0x74, 0x72, 0x6f, 0x6c];
    assert(lk(key, 0) == lk(key, 6)) by {
        assert(lk(key, 0) == lk(key, 1)) by {
            logical_entry_0();
            assert(logical_names()[0].0.spec_bytes().len() == 5);
            lemma_lk_skip(key, 0);
        }
        assert(lk(key, 1) == lk(key, 2)) by {
            logical_entry_1();
            assert(logical_names()[1].0.spec_bytes().len() == 6);
            lemma_lk_skip(key, 1);
        }
        assert(lk(key, 2) == lk(key, 3)) by {
            logical_entry_2();
            assert(logical_names()[2].0.spec_bytes().len() == 3);
            lemma_lk_skip(key, 2);
        }
        assert(lk(key, 3) == lk(key, 4)) by {
            logical_entry_3();
            assert(logical_names()[3].0.spec_bytes().len() == 6);
            lemma_lk_skip(key, 3);
        }
        assert(lk(key, 4) == lk(key, 5)) by {
            logical_entry_4();
            assert(logical_names()[4].0.spec_bytes().len() == 3);
            lemma_lk_skip(key, 4);
        }
        assert(lk(key, 5) == lk(key, 6)) by {
            logical_entry_5();
            assert(logical_names()[5].0.spec_bytes().len() == 9);
            lemma_lk_skip(key, 5);
        }
    }
    assert(lk(key, 6) == lk(key, 12)) by {
        assert(lk(key, 6) == lk(key, 7)) by {
            logical_entry_6();
            assert(logical_names()[6].0.spec_bytes().len() == 5);
            lemma_lk_skip(key, 6);
        }
        assert(lk(key, 7) == lk(key, 8)) by {
            logical_entry_7();
            assert(logical_names()[7].0.spec_bytes().len() == 2);
            lemma_lk_skip(key, 7);
        }
        assert(lk(key, 8) == lk(key, 9)) by {
            logical_entry_8();
            assert(logical_names()[8].0.spec_bytes().len() == 4);
            lemma_lk_skip(key, 8);
        }
        assert(lk(key, 9) == lk(key, 10)) by {
            logical_entry_9();
            assert(logical_names()[9].0.spec_bytes().len() == 4);
            lemma_lk_skip(key, 9);
        }
        assert(lk(key, 10) == lk(key, 11)) by {
            logical_entry_10();
            assert(logical_names()[10].0.spec_bytes().len() == 5);
            lemma_lk_skip(key, 10);
        }
        assert(lk(key, 11) == lk(key, 12)) by {
            logical_entry_11();
            assert(logical_names()[11].0.spec_bytes().len() == 4);
            lemma_lk_skip(key, 11);
        }
    }
    assert(lk(key, 12) == lk(key, 18)) by {
        assert(lk(key, 12) == lk(key, 13)) by {
            logical_entry_12();
            assert(logical_names()[12].0.spec_bytes().len() == 3);
            lemma_lk_skip(key, 12);
        }
        assert(lk(key, 13) == lk(key, 14)) by {
            logical_entry_13();
            assert(logical_names()[13].0.spec_bytes().len() == 6);
            lemma_lk_skip(key, 13);
        }
        assert(lk(key, 14) == lk(key, 15)) by {
            logical_entry_14();
            assert(logical_names()[14].0.spec_bytes().len() == 5);
            lemma_lk_skip(key, 14);
        }
        assert(lk(key, 15) == lk(key, 16)) by {
            logical_entry_15();
            assert(logical_names()[15].0.spec_bytes().len() == 4);
            lemma_lk_skip(key, 15);
        }
        assert(lk(key, 16) == lk(key, 17)) by {
            logical_entry_16();
            assert(logical_names()[16].0.spec_bytes().len() == 12);
            lemma_lk_skip(key, 16);
        }
        assert(lk(key, 17) == lk(key, 18)) by {
            logical_entry_17();
            assert(logical_names()[17].0.spec_bytes().len() == 11);
            lemma_lk_skip(key, 17);
        }
    }
    assert(lk(key, 18) == lk(key, 24)) by {
        assert(lk(key, 18) == lk(key, 19)) by {
            logical_entry_18();
            assert(logical_names()[18].0.spec_bytes().len() == 7);
            assert(logical_names()[18].0.spec_bytes()[0] != key[0]);
            lemma_lk_skip(key, 18);
        }
        assert(lk(key, 19) == lk(key, 20)) by {
            logical_entry_19();
            assert(logical_names()[19].0.spec_bytes().len() == 6);
            lemma_lk_skip(key, 19);
        }
        assert(lk(key, 20) == lk(key, 21)) by {
            logical_entry_20();
            assert(logical_names()[20].0.spec_bytes().len() == 9);
            lemma_lk_skip(key, 20);
        }
        assert(lk(key, 21) == lk(key, 22)) by {
            logical_entry_21();
            assert(logical_names()[21].0.spec_bytes().len() == 8);
            lemma_lk_skip(key, 21);
        }
        assert(lk(key, 22) == lk(key, 23)) by {
            logical_entry_22();
            assert(logical_names()[22].0.spec_bytes().len() == 3);
            lemma_lk_skip(key, 22);
        }
        assert(lk(key, 23) == lk(key, 24)) by {
            logical_entry_23();
            assert(logical_names()[23].0.spec_bytes().len() == 5);
            lemma_lk_skip(key, 23);
        }
    }
    logical_entry_24();
    lemma_lk_hit(key, 24);
}

proof fn logical_name_ctrl()
    ensures
        lookup_name(logical_names(), seq![0x63u8, 0x74, 0x72, 0x6c], 0) == Some(NamedKeyName::Control),
{
    let key = seq![0x63u8, 0x74, 0x72, 0x6c];
    assert(lk(key, 0) == lk(key, 6)) by {
        assert(lk(key, 0) == lk(key, 1)) by {
            logical_entry_0();
            assert(logical_names()[0].0.spec_bytes().len() == 5);
            lemma_lk_skip(key, 0);
        }
        assert(lk(key, 1) == lk(key, 2)) by {
            logical_entry_1();
            assert(logical_names()[1].0.spec_bytes().len() == 6);
            lemma_lk_skip(key, 1);
        }
        assert(lk(key, 2) == lk(key, 3)) by {
            logical_entry_2();
            assert(logical_names()[2].0.spec_bytes().len() == 3);
            lemma_lk_skip(key, 2);
        }
        assert(lk(key, 3) == lk(key, 4)) by {
            logical_entry_3();
            assert(logical_names()[3].0.spec_bytes().len() == 6);
            lemma_lk_skip(key, 3);
        }
        assert(lk(key, 4) == lk(key, 5)) by {
            logical_entry_4();
            assert(logical_names()[4].0.spec_bytes().len() == 3);
            lemma_lk_skip(key, 4);
        }
        assert(lk(key, 5) == lk(key, 6)) by {
            logical_entry_5();
            assert(logical_names()[5].0.spec_bytes().len() == 9);
            lemma_lk_skip(key, 5);
        }
    }
    assert(lk(key, 6) == lk(key, 12)) by {
        assert(lk(key, 6) == lk(key, 7)) by {
            logical_entry_6();
            assert(logical_names()[6].0.spec_bytes().len() == 5);
            lemma_lk_skip(key, 6);
        }
        assert(lk(key, 7) == lk(key, 8)) by {
            logical_entry_7();
            assert(logical_names()[7].0.spec_bytes().len() == 2);
            lemma_lk_skip(key, 7);
        }
        assert(lk(key, 8) == lk(key, 9)) by {
            logical_entry_8();
            assert(logical_names()[8].0.spec_bytes().len() == 4);
            assert(logical_names()[8].0.spec_bytes()[0] != key[0]);
            lemma_lk_skip(key, 8);
        }
        assert(lk(key, 9) == lk(key, 10)) by {
            logical_entry_9();
            assert(logical_names()[9].0.spec_bytes().len() == 4);
            assert(logical_names()[9].0.spec_bytes()[0] != key[0]);
            lemma_lk_skip(key, 9);
        }
        assert(lk(key, 10) == lk(key, 11)) by {
            logical_entry_10();
            assert(logical_names()[10].0.spec_bytes().len() == 5);
            lemma_lk_skip(key, 10);
        }
        assert(lk(key, 11) == lk(key, 12)) by {
            logical_entry_11();
            assert(logical_names()[11].0.spec_bytes().len() == 4);
            assert(logical_names()[11].0.spec_bytes()[0] != key[0]);
            lemma_lk_skip(key, 11);
        }
    }
    assert(lk(key, 12) == lk(key, 18)) by {
        assert(lk(key, 12) == lk(key, 13)) by {
            logical_entry_12();
            assert(logical_names()[12].0.spec_bytes().len() == 3);
            lemma_lk_skip(key, 12);
        }
        assert(lk(key, 13) == lk(key, 14)) by {
            logical_entry_13();
            assert(logical_names()[13].0.spec_bytes().len() == 6);
            lemma_lk_skip(key, 13);
        }
        assert(lk(key, 14) == lk(key, 15)) by {
            logical_entry_14();
            assert(logical_names()[14].0.spec_bytes().len() == 5);
            lemma_lk_skip(key, 14);
        }
        assert(lk(key, 15) == lk(key, 16)) by {
            logical_entry_15();
            assert(logical_names()[15].0.spec_bytes().len() == 4);
            assert(logical_names()[15].0.spec_bytes()[0] != key[0]);
            lemma_lk_skip(key, 15);
        }
        assert(lk(key, 16) == lk(key, 17)) by {
            logical_entry_16();
            assert(logical_names()[16].0.spec_bytes().len() == 12);
            lemma_lk_skip(key, 16);
        }
        assert(lk(key, 17) == lk(key, 18)) by {
            logical_entry_17();
            assert(logical_names()[17].0.spec_bytes().len() == 11);
            lemma_lk_skip(key, 17);
        }
    }
    assert(lk(key, 18) == lk(key, 24)) by {
        assert(lk(key, 18) == lk(key, 19)) by {
            logical_entry_18();
            assert(logical_names()[18].0.spec_bytes().len() == 7);
            lemma_lk_skip(key, 18);
        }
        assert(lk(key, 19) == lk(key, 20)) by {
            logical_entry_19();
            assert(logical_names()[19].0.spec_bytes().len() == 6);
            lemma_lk_skip(key, 19);
        }
        assert(lk(key, 20) == lk(key, 21)) by {
            logical_entry_20();
            assert(logical_names()[20].0.spec_bytes().len() == 9);
            lemma_lk_skip(key, 20);
        }
        assert(lk(key, 21) == lk(key, 22)) by {
            logical_entry_21();
            assert(logical_names()[21].0.spec_bytes().len() == 8);
            lemma_lk_skip(key, 21);
        }
        assert(lk(key, 22) == lk(key, 23)) by {
            logical_entry_22();
            assert(logical_names()[22].0.spec_bytes().len() == 3);
            lemma_lk_skip(key, 22);
        }
        assert(lk(key, 23) == lk(key, 24)) by {
            logical_entry_23();
            assert(logical_names()[23].0.spec_bytes().len() == 5);
            lemma_lk_skip(key, 23);
        }
    }
    assert(lk(key, 24) == lk(key, 25)) by {
        assert(lk(key, 24) == lk(key, 25)) by {
            logical_entry_24();
            assert(logical_names()[24].0.spec_bytes().len() == 7);
            lemma_lk_skip(key, 24);
        }
    }
    logical_entry_25();
    lemma_lk_hit(key, 25);
}

proof fn logical_name_super()
    ensures
        lookup_name(logical_names(), seq![0x73u8, 0x75, 0x70, 0x65, 0x72], 0) == Some(NamedKeyName::Super),
{
    let key = seq![0x73u8, 0x75, 0x70, 0x65, 0x72];
    assert(lk(key, 0) == lk(key, 6)) by {
        assert(lk(key, 0) == lk(key, 1)) by {
            logical_entry_0();
            assert(logical_names()[0].0.spec_bytes().len() == 5);
            assert(logical_names()[0].0.spec_bytes()[0] != key[0]);
            lemma_lk_skip(key, 0);
        }
        assert(lk(key, 1) == lk(key, 2)) by {
            logical_entry_1();
            assert(logical_names()[1].0.spec_bytes().len() == 6);
            lemma_lk_skip(key, 1);
        }
        assert(lk(key, 2) == lk(key, 3)) by {
            logical_entry_2();
            assert(logical_names()[2].0.spec_bytes().len() == 3);
            lemma_lk_skip(key, 2);
        }
        assert(lk(key, 3) == lk(key, 4)) by {
            logical_entry_3();
            assert(logical_names()[3].0.spec_bytes().len() == 6);
            lemma_lk_skip(key, 3);
        }
        assert(lk(key, 4) == lk(key, 5)) by {
            logical_entry_4();
            assert(logical_names()[4].0.spec_bytes().len() == 3);
            lemma_lk_skip(key, 4);
        }
        assert(lk(key, 5) == lk(key, 6)) by {
            logical_entry_5();
            assert(logical_names()[5].0.spec_bytes().len() == 9);
            lemma_lk_skip(key, 5);
        }
    }
    assert(lk(key, 6) == lk(key, 12)) by {
        assert(lk(key, 6) == lk(key, 7)) by {
            logical_entry_6();
            assert(logical_names()[6].0.spec_bytes().len() == 5);
            assert(logical_names()[6].0.spec_bytes()[1] != key[1]);
            lemma_lk_skip(key, 6);
        }
        assert(lk(key, 7) == lk(key, 8)) by {
            logical_entry_7();
            assert(logical_names()[7].0.spec_bytes().len() == 2);
            lemma_lk_skip(key, 7);
        }
        assert(lk(key, 8) == lk(key, 9)) by {
            logical_entry_8();
            assert(logical_names()[8].0.spec_bytes().len() == 4);
            lemma_lk_skip(key, 8);
        }
        assert(lk(key, 9) == lk(key, 10)) by {
            logical_entry_9();
            assert(logical_names()[9].0.spec_bytes().len() == 4);
            lemma_lk_skip(key, 9);
        }
        assert(lk(key, 10) == lk(key, 11)) by {
            logical_entry_10();
            assert(logical_names()[10].0.spec_bytes().len() == 5);
            assert(logical_names()[10].0.spec_bytes()[0] != key[0]);
            lemma_lk_skip(key, 10);
        }
        assert(lk(key, 11) == lk(key, 12)) by {
            logical_entry_11();
            assert(logical_names()[11].0.spec_bytes().len() == 4);
            lemma_lk_skip(key, 11);
        }
    }
    assert(lk(key, 12) == lk(key, 18)) by {
        assert(lk(key, 12) == lk(key, 13)) by {
            logical_entry_12();
            assert(logical_names()[12].0.spec_bytes().len() == 3);
            lemma_lk_skip(key, 12);
        }
        assert(lk(key, 13) == lk(key, 14)) by {
            logical_entry_13();
            assert(logical_names()[13].0.spec_bytes().len() == 6);
            lemma_lk_skip(key, 13);
        }
        assert(lk(key, 14) == lk(key, 15)) by {
            logical_entry_14();
            assert(logical_names()[14].0.spec_bytes().len() == 5);
            assert(logical_names()[14].0.spec_bytes()[0] != key[0]);
            lemma_lk_skip(key, 14);
        }
        assert(lk(key, 15) == lk(key, 16)) by {
            logical_entry_15();
            assert(logical_names()[15].0.spec_bytes().len() == 4);
            lemma_lk_skip(key, 15);
        }
        assert(lk(key, 16) == lk(key, 17)) by {
            logical_entry_16();
            assert(logical_names()[16].0.spec_bytes().len() == 12);
            lemma_lk_skip(key, 16);
        }
        assert(lk(key, 17) == lk(key, 18)) by {
            logical_entry_17();
            assert(logical_names()[17].0.spec_bytes().len() == 11);
            lemma_lk_skip(key, 17);
        }
    }
    assert(lk(key, 18) == lk(key, 24)) by {
        assert(lk(key, 18) == lk(key, 19)) by {
            logical_entry_18();
            assert(logical_names()[18].0.spec_bytes().len() == 7);
            lemma_lk_skip(key, 18);
        }
        assert(lk(key, 19) == lk(key, 20)) by {
            logical_entry_19();
            assert(logical_names()[19].0.spec_bytes().len() == 6);
            lemma_lk_skip(key, 19);
        }
        assert(lk(key, 20) == lk(key, 21)) by {
            logical_entry_20();
            assert(logical_names()[20].0.spec_bytes().len() == 9);
            lemma_lk_skip(key, 20);
        }
        assert(lk(key, 21) == lk(key, 22)) by {
            logical_entry_21();
            assert(logical_names()[21].0.spec_bytes().len() == 8);
            lemma_lk_skip(key, 21);
        }
        assert(lk(key, 22) == lk(key, 23)) by {
            logical_entry_22();
            assert(logical_names()[22].0.spec_bytes().len() == 3);
            lemma_lk_skip(key, 22);
        }
        assert(lk(key, 23) == lk(key, 24)) by {
            logical_entry_23();
            assert(logical_names()[23].0.spec_bytes().len() == 5);
            assert(logical_names()[23].0.spec_bytes()[1] != key[1]);
            lemma_lk_skip(key, 23);
        }
    }
    assert(lk(key, 24) == lk(key, 26)) by {
        assert(lk(key, 24) == lk(key, 25)) by {
            logical_entry_24();
            assert(logical_names()[24].0.spec_bytes().len() == 7);
            lemma_lk_skip(key, 24);
        }
        assert(lk(key, 25) == lk(key, 26)) by {
            logical_entry_25();
            assert(logical_names()[25].0.spec_bytes().len() == 4);
            lemma_lk_skip(key, 25);
        }
    }
    logical_entry_26();
    lemma_lk_hit(key, 26);
}

proof fn logical_name_meta()
    ensures
        lookup_name(logical_names(), seq![0x6du8, 0x65, 0x74, 0x61], 0) == Some(NamedKeyName::Super),
{
    let key = seq![0x6du8, 0x65, 0x74, 0x61];
    assert(lk(key, 0) == lk(key, 6)) by {
        assert(lk(key, 0) == lk(key, 1)) by {
            logical_entry_0();
            assert(logical_names()[0].0.spec_bytes().len() == 5);
            lemma_lk_skip(key, 0);
        }
        assert(lk(key, 1) == lk(key, 2)) by {
            logical_entry_1();
            assert(logical_names()[1].0.spec_bytes().len() == 6);
            lemma_lk_skip(key, 1);
        }
        assert(lk(key, 2) == lk(key, 3)) by {
            logical_entry_2();
            assert(logical_names()[2].0.spec_bytes().len() == 3);
            lemma_lk_skip(key, 2);
        }
        assert(lk(key, 3) == lk(key, 4)) by {
            logical_entry_3();
            assert(logical_names()[3].0.spec_bytes().len() == 6);
            lemma_lk_skip(key, 3);
        }
        assert(lk(key, 4) == lk(key, 5)) by {
            logical_entry_4();
            assert(logical_names()[4].0.spec_bytes().len() == 3);
            lemma_lk_skip(key, 4);
        }
        assert(lk(key, 5) == lk(key, 6)) by {
            logical_entry_5();
            assert(logical_names()[5].0.spec_bytes().len() == 9);
            lemma_lk_skip(key, 5);
        }
    }
    assert(lk(key, 6) == lk(key, 12)) by {
        assert(lk(key, 6) == lk(key, 7)) by {
            logical_entry_6();
            assert(logical_names()[6].0.spec_bytes().len() == 5);
            lemma_lk_skip(key, 6);
        }
        assert(lk(key, 7) == lk(key, 8)) by {
            logical_entry_7();
            assert(logical_names()[7].0.spec_bytes().len() == 2);
            lemma_lk_skip(key, 7);
        }
        assert(lk(key, 8) == lk(key, 9)) by {
            logical_entry_8();
            assert(logical_names()[8].0.spec_bytes().len() == 4);
            assert(logical_names()[8].0.spec_bytes()[0] != key[0]);
            lemma_lk_skip(key, 8);
        }
        assert(lk(key, 9) == lk(key, 10)) by {
            logical_entry_9();
            assert(logical_names()[9].0.spec_bytes().len() == 4);
            assert(logical_names()[9].0.spec_bytes()[0] != key[0]);
            lemma_lk_skip(key, 9);
        }
        assert(lk(key, 10) == lk(key, 11)) by {
            logical_entry_10();
            assert(logical_names()[10].0.spec_bytes().len() == 5);
            lemma_lk_skip(key, 10);
        }
        assert(lk(key, 11) == lk(key, 12)) by {
            logical_entry_11();
            assert(logical_names()[11].0.spec_bytes().len() == 4);
            assert(logical_names()[11].0.spec_bytes()[0] != key[0]);
            lemma_lk_skip(key, 11);
        }
    }
    assert(lk(key, 12) == lk(key, 18)) by {
        assert(lk(key, 12) == lk(key, 13)) by {
            logical_entry_12();
            assert(logical_names()[12].0.spec_bytes().len() == 3);
            lemma_lk_skip(key, 12);
        }
        assert(lk(key, 13) == lk(key, 14)) by {
            logical_entry_13();
            assert(logical_names()[13].0.spec_bytes().len() == 6);
            lemma_lk_skip(key, 13);
        }
        assert(lk(key, 14) == lk(key, 15)) by {
            logical_entry_14();
            assert(logical_names()[14].0.spec_bytes().len() == 5);
            lemma_lk_skip(key, 14);
        }
        assert(lk(key, 15) == lk(key, 16)) by {
            logical_entry_15();
            assert(logical_names()[15].0.spec_bytes().len() == 4);
            assert(logical_names()[15].0.spec_bytes()[2] != key[2]);
            lemma_lk_skip(key, 15);
        }
        assert(lk(key, 16) == lk(key, 17)) by {
            logical_entry_16();
            assert(logical_names()[16].0.spec_bytes().len() == 12);
            lemma_lk_skip(key, 16);
        }
        assert(lk(key, 17) == lk(key, 18)) by {
            logical_entry_17();
            assert(logical_names()[17].0.spec_bytes().len() == 11);
            lemma_lk_skip(key, 17);
        }
    }
    assert(lk(key, 18) == lk(key, 24)) by {
        assert(lk(key, 18) == lk(key, 19)) by {
            logical_entry_18();
            assert(logical_names()[18].0.spec_bytes().len() == 7);
            lemma_lk_skip(key, 18);
        }
        assert(lk(key, 19) == lk(key, 20)) by {
            logical_entry_19();
            assert(logical_names()[19].0.spec_bytes().len() == 6);
            lemma_lk_skip(key, 19);
        }
        assert(lk(key, 20) == lk(key, 21)) by {
            logical_entry_20();
            assert(logical_names()[20].0.spec_bytes().len() == 9);
            lemma_lk_skip(key, 20);
        }
        assert(lk(key, 21) == lk(key, 22)) by {
            logical_entry_21();
            assert(logical_names()[21].0.spec_bytes().len() == 8);
            lemma_lk_skip(key, 21);
        }
        assert(lk(key, 22) == lk(key, 23)) by {
            logical_entry_22();
            assert(logical_names()[22].0.spec_bytes().len() == 3);
            lemma_lk_skip(key, 22);
        }
        assert(lk(key, 23) == lk(key, 24)) by {
            logical_entry_23();
            assert(logical_names()[23].0.spec_bytes().len() == 5);
            lemma_lk_skip(key, 23);
        }
    }
    assert(lk(key, 24) == lk(key, 27)) by {
        assert(lk(key, 24) == lk(key, 25)) by {
            logical_entry_24();
            assert(logical_names()[24].0.spec_bytes().len() == 7);
            lemma_lk_skip(key, 24);
        }
        assert(lk(key, 25) == lk(key, 26)) by {
            logical_entry_25();
            assert(logical_names()[25].0.spec_bytes().len() == 4);
            assert(logical_names()[25].0.spec_bytes()[0] != key[0]);
            lemma_lk_skip(key, 25);
        }
        assert(lk(key, 26) == lk(key, 27)) by {
            logical_entry_26();
            assert(logical_names()[26].0.spec_bytes().len() == 5);
            lemma_lk_skip(key, 26);
        }
    }
    logical_entry_27();
    lemma_lk_hit(key, 27);
}

proof fn logical_name_caps_lock()
    ensures
        lookup_name(logical_names(), seq![0x63u8, 0x61, 0x70, 0x73, 0x5f, 0x6c, 0x6f, 0x63, 0x6b], 0) == Some(NamedKeyName::CapsLock),
{
    let key = seq![0x63u8, 0x61, 0x70, 0x73, 0x5f, 0x6c, 0x6f, 0x63, 0x6b];
    assert(lk(key, 0) == lk(key, 6)) by {
        assert(lk(key, 0) == lk(key, 1)) by {
            logical_entry_0();
            assert(logical_names()[0].0.spec_bytes().len() == 5);
            lemma_lk_skip(key, 0);
        }
        assert(lk(key, 1) == lk(key, 2)) by {
            logical_entry_1();
            assert(logical_names()[1].0.spec_bytes().len() == 6);
            lemma_lk_skip(key, 1);
        }
        assert(lk(key, 2) == lk(key, 3)) by {
            logical_entry_2();
            assert(logical_names()[2].0.spec_bytes().len() == 3);
            lemma_lk_skip(key, 2);
        }
        assert(lk(key, 3) == lk(key, 4)) by {
            logical_entry_3();
            assert(logical_names()[3].0.spec_bytes().len() == 6);
            lemma_lk_skip(key, 3);
        }
        assert(lk(key, 4) == lk(key, 5)) by {
            logical_entry_4();
            assert(logical_names()[4].0.spec_bytes().len() == 3);
            lemma_lk_skip(key, 4);
        }
        assert(lk(key, 5) == lk(key, 6)) by {
            logical_entry_5();
            assert(logical_names()[5].0.spec_bytes().len() == 9);
            assert(logical_names()[5].0.spec_bytes()[0] != key[0]);
            lemma_lk_skip(key, 5);
        }
    }
    assert(lk(key, 6) == lk(key, 12)) by {
        assert(lk(key, 6) == lk(key, 7)) by {
            logical_entry_6();
            assert(logical_names()[6].0.spec_bytes().len() == 5);
            lemma_lk_skip(key, 6);
        }
        assert(lk(key, 7) == lk(key, 8)) by {
            logical_entry_7();
            assert(logical_names()[7].0.spec_bytes().len() == 2);
            lemma_lk_skip(key, 7);
        }
        assert(lk(key, 8) == lk(key, 9)) by {
            logical_entry_8();
            assert(logical_names()[8].0.spec_bytes().len() == 4);
            lemma_lk_skip(key, 8);
        }
        assert(lk(key, 9) == lk(key, 10)) by {
            logical_entry_9();
            assert(logical_names()[9].0.spec_bytes().len() == 4);
            lemma_lk_skip(key, 9);
        }
        assert(lk(key, 10) == lk(key, 11)) by {
            logical_entry_10();
            assert(logical_names()[10].0.spec_bytes().len() == 5);
            lemma_lk_skip(key, 10);
        }
        assert(lk(key, 11) == lk(key, 12)) by {
            logical_entry_11();
            assert(logical_names()[11].0.spec_bytes().len() == 4);
            lemma_lk_skip(key, 11);
        }
    }
    assert(lk(key, 12) == lk(key, 18)) by {
        assert(lk(key, 12) == lk(key, 13)) by {
            logical_entry_12();
            assert(logical_names()[12].0.spec_bytes().len() == 3);
            lemma_lk_skip(key, 12);
        }
        assert(lk(key, 13) == lk(key, 14)) by {
            logical_entry_13();
            assert(logical_names()[13].0.spec_bytes().len() == 6);
            lemma_lk_skip(key, 13);
        }
        assert(lk(key, 14) == lk(key, 15)) by {
            logical_entry_14();
            assert(logical_names()[14].0.spec_bytes().len() == 5);
            lemma_lk_skip(key, 14);
        }
        assert(lk(key, 15) == lk(key, 16)) by {
            logical_entry_15();
            assert(logical_names()[15].0.spec_bytes().len() == 4);
            lemma_lk_skip(key, 15);
        }
        assert(lk(key, 16) == lk(key, 17)) by {
            logical_entry_16();
            assert(logical_names()[16].0.spec_bytes().len() == 12);
            lemma_lk_skip(key, 16);
        }
        assert(lk(key, 17) == lk(key, 18)) by {
            logical_entry_17();
            assert(logical_names()[17].0.spec_bytes().len() == 11);
            lemma_lk_skip(key, 17);
        }
    }
    assert(lk(key, 18) == lk(key, 24)) by {
        assert(lk(key, 18) == lk(key, 19)) by {
            logical_entry_18();
            assert(logical_names()[18].0.spec_bytes().len() == 7);
            lemma_lk_skip(key, 18);
        }
        assert(lk(key, 19) == lk(key, 20)) by {
            logical_entry_19();
            assert(logical_names()[19].0.spec_bytes().len() == 6);
            lemma_lk_skip(key, 19);
        }
        assert(lk(key, 20) == lk(key, 21)) by {
            logical_entry_20();
            assert(logical_names()[20].0.spec_bytes().len() == 9);
            assert(logical_names()[20].0.spec_bytes()[0] != key[0]);
            lemma_lk_skip(key, 20);
        }
        assert(lk(key, 21) == lk(key, 22)) by {
            logical_entry_21();
            assert(logical_names()[21].0.spec_bytes().len() == 8);
            lemma_lk_skip(key, 21);
        }
        assert(lk(key, 22) == lk(key, 23)) by {
            logical_entry_22();
            assert(logical_names()[22].0.spec_bytes().len() == 3);
            lemma_lk_skip(key, 22);
        }
        assert(lk(key, 23) == lk(key, 24)) by {
            logical_entry_23();
            assert(logical_names()[23].0.spec_bytes().len() == 5);
            lemma_lk_skip(key, 23);
        }
    }
    assert(lk(key, 24) == lk(key, 28)) by {
        assert(lk(key, 24) == lk(key, 25)) by {
            logical_entry_24();
            assert(logical_names()[24].0.spec_bytes().len() == 7);
            lemma_lk_skip(key, 24);
        }
        assert(lk(key, 25) == lk(key, 26)) by {
            logical_entry_25();
            assert(logical_names()[25].0.spec_bytes().len() == 4);
            lemma_lk_skip(key, 25);
        }
        assert(lk(key, 26) == lk(key, 27)) by {
            logical_entry_26();
            assert(logical_names()[26].0.spec_bytes().len() == 5);
            lemma_lk_skip(key, 26);
        }
        assert(lk(key, 27) == lk(key, 28)) by {
            logical_entry_27();
            assert(logical_names()[27].0.spec_bytes().len() == 4);
            lemma_lk_skip(key, 27);
        }
    }
    logical_entry_28();
    lemma_lk_hit(key, 28);
}

proof fn logical_name_capslock()
    ensures
        lookup_name(logical_names(), seq![0x63u8, 0x61, 0x70, 0x73, 0x6c, 0x6f, 0x63, 0x6b], 0) == Some(NamedKeyName::CapsLock),
{
    let key = seq![0x63u8, 0x61, 0x70, 0x73, 0x6c, 0x6f, 0x63, 0x6b];
    assert(lk(key, 0) == lk(key, 6)) by {
        assert(lk(key, 0) == lk(key, 1)) by {
            logical_entry_0();
            assert(logical_names()[0].0.spec_bytes().len() == 5);
            lemma_lk_skip(key, 0);
        }
        assert(lk(key, 1) == lk(key, 2)) by {
            logical_entry_1();
            assert(logical_names()[1].0.spec_bytes().len() == 6);
            lemma_lk_skip(key, 1);
        }
        assert(lk(key, 2) == lk(key, 3)) by {
            logical_entry_2();
            assert(logical_names()[2].0.spec_bytes().len() == 3);
            lemma_lk_skip(key, 2);
        }
        assert(lk(key, 3) == lk(key, 4)) by {
            logical_entry_3();
            assert(logical_names()[3].0.spec_bytes().len() == 6);
            lemma_lk_skip(key, 3);
        }
        assert(lk(key, 4) == lk(key, 5)) by {
            logical_entry_4();
            assert(logical_names()[4].0.spec_bytes().len() == 3);
            lemma_lk_skip(key, 4);
        }
        assert(lk(key, 5) == lk(key, 6)) by {
            logical_entry_5();
            assert(logical_names()[5].0.spec_bytes().len() == 9);
            lemma_lk_skip(key, 5);
        }
    }
    assert(lk(key, 6) == lk(key, 12)) by {
        assert(lk(key, 6) == lk(key, 7)) by {
            logical_entry_6();
            assert(logical_names()[6].0.spec_bytes().len() == 5);
            lemma_lk_skip(key, 6);
        }
        assert(lk(key, 7) == lk(key, 8)) by {
            logical_entry_7();
            assert(logical_names()[7].0.spec_bytes().len() == 2);
            lemma_lk_skip(key, 7);
        }
        assert(lk(key, 8) == lk(key, 9)) by {
            logical_entry_8();
            assert(logical_names()[8].0.spec_bytes().len() == 4);
            lemma_lk_skip(key, 8);
        }
        assert(lk(key, 9) == lk(key, 10)) by {
            logical_entry_9();
            assert(logical_names()[9].0.spec_bytes().len() == 4);
            lemma_lk_skip(key, 9);
        }
        assert(lk(key, 10) == lk(key, 11)) by {
            logical_entry_10();
            assert(logical_names()[10].0.spec_bytes().len() == 5);
            lemma_lk_skip(key, 10);
        }
        assert(lk(key, 11) == lk(key, 12)) by {
            logical_entry_11();
            assert(logical_names()[11].0.spec_bytes().len() == 4);
            lemma_lk_skip(key, 11);
        }
    }
    assert(lk(key, 12) == lk(key, 18)) by {
        assert(lk(key, 12) == lk(key, 13)) by {
            logical_entry_12();
            assert(logical_names()[12].0.spec_bytes().len() == 3);
            lemma_lk_skip(key, 12);
        }
        assert(lk(key, 13) == lk(key, 14)) by {
            logical_entry_13();
            assert(logical_names()[13].0.spec_bytes().len() == 6);
            lemma_lk_skip(key, 13);
        }
        assert(lk(key, 14) == lk(key, 15)) by {
            logical_entry_14();
            assert(logical_names()[14].0.spec_bytes().len() == 5);
            lemma_lk_skip(key, 14);
        }
        assert(lk(key, 15) == lk(key, 16)) by {
            logical_entry_15();
            assert(logical_names()[15].0.spec_bytes().len() == 4);
            lemma_lk_skip(key, 15);
        }
        assert(lk(key, 16) == lk(key, 17)) by {
            logical_entry_16();
            assert(logical_names()[16].0.spec_bytes().len() == 12);
            lemma_lk_skip(key, 16);
        }
        assert(lk(key, 17) == lk(key, 18)) by {
            logical_entry_17();
            assert(logical_names()[17].0.spec_bytes().len() == 11);
            lemma_lk_skip(key, 17);
        }
    }
    assert(lk(key, 18) == lk(key, 24)) by {
        assert(lk(key, 18) == lk(key, 19)) by {
            logical_entry_18();
            assert(logical_names()[18].0.spec_bytes().len() == 7);
            lemma_lk_skip(key, 18);
        }
        assert(lk(key, 19) == lk(key, 20)) by {
            logical_entry_19();
            assert(logical_names()[19].0.spec_bytes().len() == 6);
            lemma_lk_skip(key, 19);
        }
        assert(lk(key, 20) == lk(key, 21)) by {
            logical_entry_20();
            assert(logical_names()[20].0.spec_bytes().len() == 9);
            lemma_lk_skip(key, 20);
        }
        assert(lk(key, 21) == lk(key, 22)) by {
            logical_entry_21();
            assert(logical_names()[21].0.spec_bytes().len() == 8);
            assert(logical_names()[21].0.spec_bytes()[0] != key[0]);
            lemma_lk_skip(key, 21);
        }
        assert(lk(key, 22) == lk(key, 23)) by {
            logical_entry_22();
            assert(logical_names()[22].0.spec_bytes().len() == 3);
            lemma_lk_skip(key, 22);
        }
        assert(lk(key, 23) == lk(key, 24)) by {
            logical_entry_23();
            assert(logical_names()[23].0.spec_bytes().len() == 5);
            lemma_lk_skip(key, 23);
        }
    }
    assert(lk(key, 24) == lk(key, 29)) by {
        assert(lk(key, 24) == lk(key, 25)) by {
            logical_entry_24();
            assert(logical_names()[24].0.spec_bytes().len() == 7);
            lemma_lk_skip(key, 24);
        }
        assert(lk(key, 25) == lk(key, 26)) by {
            logical_entry_25();
            assert(logical_names()[25].0.spec_bytes().len() == 4);
            lemma_lk_skip(key, 25);
        }
        assert(lk(key, 26) == lk(key, 27)) by {
            logical_entry_26();
            assert(logical_names()[26].0.spec_bytes().len() == 5);
            lemma_lk_skip(key, 26);
        }
        assert(lk(key, 27) == lk(key, 28)) by {
            logical_entry_27();
            assert(logical_names()[27].0.spec_bytes().len() == 4);
            lemma_lk_skip(key, 27);
        }
        assert(lk(key, 28) == lk(key, 29)) by {
            logical_entry_28();
            assert(logical_names()[28].0.spec_bytes().len() == 9);
            lemma_lk_skip(key, 28);
        }
    }
    logical_entry_29();
    lemma_lk_hit(key, 29);
}

proof fn logical_name_num_lock()
    ensures
        lookup_name(logical_names(), seq![0x6eu8, 0x75, 0x6d, 0x5f, 0x6c, 0x6f, 0x63, 0x6b], 0) == Some(NamedKeyName::NumLock),
{
    let key = seq![0x6eu8, 0x75, 0x6d, 0x5f, 0x6c, 0x6f, 0x63, 0x6b];
    assert(lk(key, 0) == lk(key, 6)) by {
        assert(lk(key, 0) == lk(key, 1)) by {
            logical_entry_0();
            assert(logical_names()[0].0.spec_bytes().len() == 5);
            lemma_lk_skip(key, 0);
        }
        assert(lk(key, 1) == lk(key, 2)) by {
            logical_entry_1();
            assert(logical_names()[1].0.spec_bytes().len() == 6);
            lemma_lk_skip(key, 1);
        }
        assert(lk(key, 2) == lk(key, 3)) by {
            logical_entry_2();
            assert(logical_names()[2].0.spec_bytes().len() == 3);
            lemma_lk_skip(key, 2);
        }
        assert(lk(key, 3) == lk(key, 4)) by {
            logical_entry_3();
            assert(logical_names()[3].0.spec_bytes().len() == 6);
            lemma_lk_skip(key, 3);
        }
        assert(lk(key, 4) == lk(key, 5)) by {
            logical_entry_4();
            assert(logical_names()[4].0.spec_bytes().len() == 3);
            lemma_lk_skip(key, 4);
        }
        assert(lk(key, 5) == lk(key, 6)) by {
            logical_entry_5();
            assert(logical_names()[5].0.spec_bytes().len() == 9);
            lemma_lk_skip(key, 5);
        }
    }
    assert(lk(key, 6) == lk(key, 12)) by {
        assert(lk(key, 6) == lk(key, 7)) by {
            logical_entry_6();
            assert(logical_names()[6].0.spec_bytes().len() == 5);
            lemma_lk_skip(key, 6);
        }
        assert(lk(key, 7) == lk(key, 8)) by {
            logical_entry_7();
            assert(logical_names()[7].0.spec_bytes().len() == 2);
            lemma_lk_skip(key, 7);
        }
        assert(lk(key, 8) == lk(key, 9)) by {
            logical_entry_8();
            assert(logical_names()[8].0.spec_bytes().len() == 4);
            lemma_lk_skip(key, 8);
        }
        assert(lk(key, 9) == lk(key, 10)) by {
            logical_entry_9();
            assert(logical_names()[9].0.spec_bytes().len() == 4);
            lemma_lk_skip(key, 9);
        }
        assert(lk(key, 10) == lk(key, 11)) by {
            logical_entry_10();
            assert(logical_names()[10].0.spec_bytes().len() == 5);
            lemma_lk_skip(key, 10);
        }
        assert(lk(key, 11) == lk(key, 12)) by {
            logical_entry_11();
            assert(logical_names()[11].0.spec_bytes().len() == 4);
            lemma_lk_skip(key, 11);
        }
    }
    assert(lk(key, 12) == lk(key, 18)) by {
        assert(lk(key, 12) == lk(key, 13)) by {
            logical_entry_12();
            assert(logical_names()[12].0.spec_bytes().len() == 3);
            lemma_lk_skip(key, 12);
        }
        assert(lk(key, 13) == lk(key, 14)) by {
            logical_entry_13();
            assert(logical_names()[13].0.spec_bytes().len() == 6);
            lemma_lk_skip(key, 13);
        }
        assert(lk(key, 14) == lk(key, 15)) by {
            logical_entry_14();
            assert(logical_names()[14].0.spec_bytes().len() == 5);
            lemma_lk_skip(key, 14);
        }
        assert(lk(key, 15) == lk(key, 16)) by {
            logical_entry_15();
            assert(logical_names()[15].0.spec_bytes().len() == 4);
            lemma_lk_skip(key, 15);
        }
        assert(lk(key, 16) == lk(key, 17)) by {
            logical_entry_16();
            assert(logical_names()[16].0.spec_bytes().len() == 12);
            lemma_lk_skip(key, 16);
        }
        assert(lk(key, 17) == lk(key, 18)) by {
            logical_entry_17();
            assert(logical_names()[17].0.spec_bytes().len() == 11);
            lemma_lk_skip(key, 17);
        }
    }
    assert(lk(key, 18) == lk(key, 24)) by {
        assert(lk(key, 18) == lk(key, 19)) by {
            logical_entry_18();
            assert(logical_names()[18].0.spec_bytes().len() == 7);
            lemma_lk_skip(key, 18);
        }
        assert(lk(key, 19) == lk(key, 20)) by {
            logical_entry_19();
            assert(logical_names()[19].0.spec_bytes().len() == 6);
            lemma_lk_skip(key, 19);
        }
        assert(lk(key, 20) == lk(key, 21)) by {
            logical_entry_20();
            assert(logical_names()[20].0.spec_bytes().len() == 9);
            lemma_lk_skip(key, 20);
        }
        assert(lk(key, 21) == lk(key, 22)) by {
            logical_entry_21();
            assert(logical_names()[21].0.spec_bytes().len() == 8);
            assert(logical_names()[21].0.spec_bytes()[0] != key[0]);
            lemma_lk_skip(key, 21);
        }
        assert(lk(key, 22) == lk(key, 23)) by {
            logical_entry_22();
            assert(logical_names()[22].0.spec_bytes().len() == 3);
            lemma_lk_skip(key, 22);
        }
        assert(lk(key, 23) == lk(key, 24)) by {
            logical_entry_23();
            assert(logical_names()[23].0.spec_bytes().len() == 5);
            lemma_lk_skip(key, 23);
        }
    }
    assert(lk(key, 24) == lk(key, 30)) by {
        assert(lk(key, 24) == lk(key, 25)) by {
            logical_entry_24();
            assert(logical_names()[24].0.spec_bytes().len() == 7);
            lemma_lk_skip(key, 24);
        }
        assert(lk(key, 25) == lk(key, 26)) by {
            logical_entry_25();
            assert(logical_names()[25].0.spec_bytes().len() == 4);
            lemma_lk_skip(key, 25);
        }
        assert(lk(key, 26) == lk(key, 27)) by {
            logical_entry_26();
            assert(logical_names()[26].0.spec_bytes().len() == 5);
            lemma_lk_skip(key, 26);
        }
        assert(lk(key, 27) == lk(key, 28)) by {
            logical_entry_27();
            assert(logical_names()[27].0.spec_bytes().len() == 4);
            lemma_lk_skip(key, 27);
        }
        assert(lk(key, 28) == lk(key, 29)) by {
            logical_entry_28();
            assert(logical_names()[28].0.spec_bytes().len() == 9);
            lemma_lk_skip(key, 28);
        }
        assert(lk(key, 29) == lk(key, 30)) by {
            logical_entry_29();
            assert(logical_names()[29].0.spec_bytes().len() == 8);
            assert(logical_names()[29].0.spec_bytes()[0] != key[0]);
            lemma_lk_skip(key, 29);
        }
    }
    logical_entry_30();
    lemma_lk_hit(key, 30);
}

proof fn logical_name_numlock()
    ensures
        lookup_name(logical_names(), seq![0x6eu8, 0x75, 0x6d, 0x6c, 0x6f, 0x63, 0x6b], 0) == Some(NamedKeyName::NumLock),
{
    let key = seq![0x6eu8, 0x75, 0x6d, 0x6c, 0x6f, 0x63, 0x6b];
    assert(lk(key, 0) == lk(key, 6)) by {
        assert(lk(key, 0) == lk(key, 1)) by {
            logical_entry_0();
            assert(logical_names()[0].0.spec_bytes().len() == 5);
            lemma_lk_skip(key, 0);
        }
        assert(lk(key, 1) == lk(key, 2)) by {
            logical_entry_1();
            assert(logical_names()[1].0.spec_bytes().len() == 6);
            lemma_lk_skip(key, 1);
        }
        assert(lk(key, 2) == lk(key, 3)) by {
            logical_entry_2();
            assert(logical_names()[2].0.spec_bytes().len() == 3);
            lemma_lk_skip(key, 2);
        }
        assert(lk(key, 3) == lk(key, 4)) by {
            logical_entry_3();
            assert(logical_names()[3].0.spec_bytes().len() == 6);
            lemma_lk_skip(key, 3);
        }
        assert(lk(key, 4) == lk(key, 5)) by {
            logical_entry_4();
            assert(logical_names()[4].0.spec_bytes().len() == 3);
            lemma_lk_skip(key, 4);
        }
        assert(lk(key, 5) == lk(key, 6)) by {
            logical_entry_5();
            assert(logical_names()[5].0.spec_bytes().len() == 9);
            lemma_lk_skip(key, 5);
        }
    }
    assert(lk(key, 6) == lk(key, 12)) by {
        assert(lk(key, 6) == lk(key, 7)) by {
            logical_entry_6();
            assert(logical_names()[6].0.spec_bytes().len() == 5);
            lemma_lk_skip(key, 6);
        }
        assert(lk(key, 7) == lk(key, 8)) by {
            logical_entry_7();
            assert(logical_names()[7].0.spec_bytes().len() == 2);
            lemma_lk_skip(key, 7);
        }
        assert(lk(key, 8) == lk(key, 9)) by {
            logical_entry_8();
            assert(logical_names()[8].0.spec_bytes().len() == 4);
            lemma_lk_skip(key, 8);
        }
        assert(lk(key, 9) == lk(key, 10)) by {
            logical_entry_9();
            assert(logical_names()[9].0.spec_bytes().len() == 4);
            lemma_lk_skip(key, 9);
        }
        assert(lk(key, 10) == lk(key, 11)) by {
            logical_entry_10();
            assert(logical_names()[10].0.spec_bytes().len() == 5);
            lemma_lk_skip(key, 10);
        }
        assert(lk(key, 11) == lk(key, 12)) by {
            logical_entry_11();
            assert(logical_names()[11].0.spec_bytes().len() == 4);
            lemma_lk_skip(key, 11);
        }
    }
    assert(lk(key, 12) == lk(key, 18)) by {
        assert(lk(key, 12) == lk(key, 13)) by {
            logical_entry_12();
            assert(logical_names()[12].0.spec_bytes().len() == 3);
            lemma_lk_skip(key, 12);
        }
        assert(lk(key, 13) == lk(key, 14)) by {
            logical_entry_13();
            assert(logical_names()[13].0.spec_bytes().len() == 6);
            lemma_lk_skip(key, 13);
        }
        assert(lk(key, 14) == lk(key, 15)) by {
            logical_entry_14();
            assert(logical_names()[14].0.spec_bytes().len() == 5);
            lemma_lk_skip(key, 14);
        }
        assert(lk(key, 15) == lk(key, 16)) by {
            logical_entry_15();
            assert(logical_names()[15].0.spec_bytes().len() == 4);
            lemma_lk_skip(key, 15);
        }
        assert(lk(key, 16) == lk(key, 17)) by {
            logical_entry_16();
            assert(logical_names()[16].0.spec_bytes().len() == 12);
            lemma_lk_skip(key, 16);
        }
        assert(lk(key, 17) == lk(key, 18)) by {
            logical_entry_17();
            assert(logical_names()[17].0.spec_bytes().len() == 11);
            lemma_lk_skip(key, 17);
        }
    }
    assert(lk(key, 18) == lk(key, 24)) by {
        assert(lk(key, 18) == lk(key, 19)) by {
            logical_entry_18();
            assert(logical_names()[18].0.spec_bytes().len() == 7);
            assert(logical_names()[18].0.spec_bytes()[0] != key[0]);
            lemma_lk_skip(key, 18);
        }
        assert(lk(key, 19) == lk(key, 20)) by {
            logical_entry_19();
            assert(logical_names()[19].0.spec_bytes().len() == 6);
            lemma_lk_skip(key, 19);
        }
        assert(lk(key, 20) == lk(key, 21)) by {
            logical_entry_20();
            assert(logical_names()[20].0.spec_bytes().len() == 9);
            lemma_lk_skip(key, 20);
        }
        assert(lk(key, 21) == lk(key, 22)) by {
            logical_entry_21();
            assert(logical_names()[21].0.spec_bytes().len() == 8);
            lemma_lk_skip(key, 21);
        }
        assert(lk(key, 22) == lk(key, 23)) by {
            logical_entry_22();
            assert(logical_names()[22].0.spec_bytes().len() == 3);
            lemma_lk_skip(key, 22);
        }
        assert(lk(key, 23) == lk(key, 24)) by {
            logical_entry_23();
            assert(logical_names()[23].0.spec_bytes().len() == 5);
            lemma_lk_skip(key, 23);
        }
    }
    assert(lk(key, 24) == lk(key, 30)) by {
        assert(lk(key, 24) == lk(key, 25)) by {
            logical_entry_24();
            assert(logical_names()[24].0.spec_bytes().len() == 7);
            assert(logical_names()[24].0.spec_bytes()[0] != key[0]);
            lemma_lk_skip(key, 24);
        }
        assert(lk(key, 25) == lk(key, 26)) by {
            logical_entry_25();
            assert(logical_names()[25].0.spec_bytes().len() == 4);
            lemma_lk_skip(key, 25);
        }
        assert(lk(key, 26) == lk(key, 27)) by {
            logical_entry_26();
            assert(logical_names()[26].0.spec_bytes().len() == 5);
            lemma_lk_skip(key, 26);
        }
        assert(lk(key, 27) == lk(key, 28)) by {
            logical_entry_27();
            assert(logical_names()[27].0.spec_bytes().len() == 4);
            lemma_lk_skip(key, 27);
        }
        assert(lk(key, 28) == lk(key, 29)) by {
            logical_entry_28();
            assert(logical_names()[28].0.spec_bytes().len() == 9);
            lemma_lk_skip(key, 28);
        }
        assert(lk(key, 29) == lk(key, 30)) by {
            logical_entry_29();
            assert(logical_names()[29].0.spec_bytes().len() == 8);
            lemma_lk_skip(key, 29);
        }
    }
    assert(lk(key, 30) == lk(key, 31)) by {
        assert(lk(key, 30) == lk(key, 31)) by {
            logical_entry_30();
            assert(logical_names()[30].0.spec_bytes().len() == 8);
            lemma_lk_skip(key, 30);
        }
    }
    logical_entry_31();
    lemma_lk_hit(key, 31);
}

/// Every known logical key name, in any ASCII case, names its key:
/// `enter` and `return` the Enter key, `home` the Home key, `end` the End
/// key, and so on for each name below.
pub proof fn law_logical_key_names(name: &str)
    ensures
        lower_bytes(name.spec_bytes()) == seq![0x65u8, 0x6e, 0x74, 0x65, 0x72] ==> spec_synthetic_key(name) == Some(NamedKeyName::Enter),
        lower_bytes(name.spec_bytes()) == seq![0x72u8, 0x65, 0x74, 0x75, 0x72, 0x6e] ==> spec_synthetic_key(name) == Some(NamedKeyName::Enter),
        lower_bytes(name.spec_bytes()) == seq![0x74u8, 0x61, 0x62] ==> spec_synthetic_key(name) == Some(NamedKeyName::Tab),
        lower_bytes(name.spec_bytes()) == seq![0x65u8, 0x73, 0x63, 0x61, 0x70, 0x65] ==> spec_synthetic_key(name) == Some(NamedKeyName::Escape),
        lower_bytes(name.spec_bytes()) == seq![0x65u8, 0x73, 0x63] ==> spec_synthetic_key(name) == Some(NamedKeyName::Escape),
        lower_bytes(name.spec_bytes()) == seq![0x62u8, 0x61, 0x63, 0x6b, 0x73, 0x70, 0x61, 0x63, 0x65] ==> spec_synthetic_key(name) == Some(NamedKeyName::Backspace),
        lower_bytes(name.spec_bytes()) == seq![0x73u8, 0x70, 0x61, 0x63, 0x65] ==> spec_synthetic_key(name) == Some(NamedKeyName::Space),
        lower_bytes(name.spec_bytes()) == seq![0x75u8, 0x70] ==> spec_synthetic_key(name) == Some(NamedKeyName::ArrowUp),
        lower_bytes(name.spec_bytes()) == seq![0x64u8, 0x6f, 0x77, 0x6e] ==> spec_synthetic_key(name) == Some(NamedKeyName::ArrowDown),
        lower_bytes(name.spec_bytes()) == seq![0x6cu8, 0x65, 0x66, 0x74] ==> spec_synthetic_key(name) == Some(NamedKeyName::ArrowLeft),
        lower_bytes(name.spec_bytes()) == seq![0x72u8, 0x69, 0x67, 0x68, 0x74] ==> spec_synthetic_key(name) == Some(NamedKeyName::ArrowRight),
        lower_bytes(name.spec_bytes()) == seq![0x68u8, 0x6f, 0x6d, 0x65] ==> spec_synthetic_key(name) == Some(NamedKeyName::Home),
        lower_bytes(name.spec_bytes()) == seq![0x65u8, 0x6e, 0x64] ==> spec_synthetic_key(name) == Some(NamedKeyName::End),
        lower_bytes(name.spec_bytes()) == seq![0x64u8, 0x65, 0x6c, 0x65, 0x74, 0x65] ==> spec_synthetic_key(name) == Some(NamedKeyName::Delete),
        lower_bytes(name.spec_bytes()) == seq![0x63u8, 0x6c, 0x65, 0x61, 0x72] ==> spec_synthetic_key(name) == Some(NamedKeyName::Clear),
        lower_bytes(name.spec_bytes()) == seq![0x6du8, 0x65, 0x6e, 0x75] ==> spec_synthetic_key(name) == Some(NamedKeyName::ContextMenu),
        lower_bytes(name.spec_bytes()) == seq![0x63u8, 0x6f, 0x6e, 0x74, 0x65, 0x78, 0x74, 0x5f, 0x6d, 0x65, 0x6e, 0x75] ==> spec_synthetic_key(name) == Some(NamedKeyName::ContextMenu),
        lower_bytes(name.spec_bytes()) == seq![0x63u8, 0x6f, 0x6e, 0x74, 0x65, 0x78, 0x74, 0x6d, 0x65, 0x6e, 0x75] ==> spec_synthetic_key(name) == Some(NamedKeyName::ContextMenu),
        lower_bytes(name.spec_bytes()) == seq![0x70u8, 0x61, 0x67, 0x65, 0x5f, 0x75, 0x70] ==> spec_synthetic_key(name) == Some(NamedKeyName::PageUp),
        lower_bytes(name.spec_bytes()) == seq![0x70u8, 0x61, 0x67, 0x65, 0x75, 0x70] ==> spec_synthetic_key(name) == Some(NamedKeyName::PageUp),
        lower_bytes(name.spec_bytes()) == seq![0x70u8, 0x61, 0x67, 0x65, 0x5f, 0x64, 0x6f, 0x77, 0x6e] ==> spec_synthetic_key(name) == Some(NamedKeyName::PageDown),
        lower_bytes(name.spec_bytes()) == seq![0x70u8, 0x61, 0x67, 0x65, 0x64, 0x6f, 0x77, 0x6e] ==> spec_synthetic_key(name) == Some(NamedKeyName::PageDown),
        lower_bytes(name.spec_bytes()) == seq![0x61u8, 0x6c, 0x74] ==> spec_synthetic_key(name) == Some(NamedKeyName::Alt),
        lower_bytes(name.spec_bytes()) == seq![0x73u8, 0x68, 0x69, 0x66, 0x74] ==> spec_synthetic_key(name) == Some(NamedKeyName::Shift),
        lower_bytes(name.spec_bytes()) == seq![0x63u8, 0x6f, 0x6e, 0x74, 0x72, 0x6f, 0x6c] ==> spec_synthetic_key(name) == Some(NamedKeyName::Control),
        lower_bytes(name.spec_bytes()) == seq![0x63u8, 0x74, 0x72, 0x6c] ==> spec_synthetic_key(name) == Some(NamedKeyName::Control),
        lower_bytes(name.spec_bytes()) == seq![0x73u8, 0x75, 0x70, 0x65, 0x72] ==> spec_synthetic_key(name) == Some(NamedKeyName::Super),
        lower_bytes(name.spec_bytes()) == seq![0x6du8, 0x65, 0x74, 0x61] ==> spec_synthetic_key(name) == Some(NamedKeyName::Super),
        lower_bytes(name.spec_bytes()) == seq![0x63u8, 0x61, 0x70, 0x73, 0x5f, 0x6c, 0x6f, 0x63, 0x6b] ==> spec_synthetic_key(name) == Some(NamedKeyName::CapsLock),
        lower_bytes(name.spec_bytes()) == seq![0x63u8, 0x61, 0x70, 0x73, 0x6c, 0x6f, 0x63, 0x6b] ==> spec_synthetic_key(name) == Some(NamedKeyName::CapsLock),
        lower_bytes(name.spec_bytes()) == seq![0x6eu8, 0x75, 0x6d, 0x5f, 0x6c, 0x6f, 0x63, 0x6b] ==> spec_synthetic_key(name) == Some(NamedKeyName::NumLock),
        lower_bytes(name.spec_bytes()) == seq![0x6eu8, 0x75, 0x6d, 0x6c, 0x6f, 0x63, 0x6b] ==> spec_synthetic_key(name) == Some(NamedKeyName::NumLock),
{
    logical_name_enter();
    logical_name_return();
    logical_name_tab();
    logical_name_escape();
    logical_name_esc();
    logical_name_backspace();
    logical_name_space();
    logical_name_up();
    logical_name_down();
    logical_name_left();
    logical_name_right();
    logical_name_home();
    logical_name_end();
    logical_name_delete();
    logical_name_clear();
    logical_name_menu();
    logical_name_context_menu();
    logical_name_contextmenu();
    logical_name_page_up();
    logical_name_pageup();
    logical_name_page_down();
    logical_name_pagedown();
    logical_name_alt();
    logical_name_shift();
    logical_name_control();
    logical_name_ctrl();
    logical_name_super();
    logical_name_meta();
    logical_name_caps_lock();
    logical_name_capslock();
    logical_name_num_lock();
    logical_name_numlock();
}

} // verus!
