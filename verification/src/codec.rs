//! The persisted registry document: a pretty-printed JSON object with one
//! `devices` array, each element a device record whose optional fields are
//! omitted when absent. The serializer and the parser are both verified, and
//! parsing a serialized registry is proved to give back the same registry.

use vstd::prelude::*;
use crate::chars::has_prefix;
use crate::error::ServoError;
use crate::servo::{LocalServo, ServoList, ServoView, servo_views};

verus! {

/// The escape of one character inside a JSON string literal.
pub open spec fn esc_char(c: char) -> Seq<char> {
    if c == '"' {
        seq!['\\', '"']
    } else if c == '\\' {
        seq!['\\', '\\']
    } else if c == '\n' {
        seq!['\\', 'n']
    } else {
        seq![c]
    }
}

/// The escaped body of a JSON string literal.
pub open spec fn esc(s: Seq<char>) -> Seq<char>
    decreases s.len(),
{
    if s.len() == 0 {
        Seq::empty()
    } else {
        esc_char(s[0]) + esc(s.skip(1))
    }
}

/// A JSON string literal: the escaped body between double quotes.
pub open spec fn ser_string(s: Seq<char>) -> Seq<char> {
    seq!['"'] + esc(s) + seq!['"']
}

/// One entry of the tty object, at its indentation depth.
pub open spec fn ser_tty_entry(p: (Seq<char>, Seq<char>)) -> Seq<char> {
    "        "@ + (ser_string(p.0) + (": "@ + ser_string(p.1)))
}

/// The comma-separated entries of a non-empty tty object.
pub open spec fn ser_tty_body(l: Seq<(Seq<char>, Seq<char>)>) -> Seq<char>
    decreases l.len(),
{
    if l.len() <= 1 {
        ser_tty_entry(l[0])
    } else {
        ser_tty_entry(l[0]) + (",\n"@ + ser_tty_body(l.skip(1)))
    }
}

/// The tty object: `{}` when empty, else one entry per line.
pub open spec fn ser_ttys(l: Seq<(Seq<char>, Seq<char>)>) -> Seq<char> {
    if l.len() == 0 {
        "{}"@
    } else {
        "{\n"@ + (ser_tty_body(l) + "\n      }"@)
    }
}

/// An optional device field: nothing when absent, else a comma, the field
/// name and the value.
pub open spec fn ser_opt_field(name: Seq<char>, o: Option<Seq<char>>) -> Seq<char> {
    match o {
        None => Seq::empty(),
        Some(s) => (",\n      \""@ + name + "\": "@) + ser_string(s),
    }
}

/// One device record of the registry document.
pub open spec fn ser_device(v: ServoView) -> Seq<char> {
    "    {\n      \"product\": "@ + (ser_string(v.product) + (",\n      \"serial\": "@ + (
    ser_string(v.serial) + (",\n      \"usb_sysfs_path\": "@ + (ser_string(v.usb_sysfs_path) + (
    ",\n      \"tty_list\": "@ + (ser_ttys(v.tty_list) + (ser_opt_field("mac_addr"@, v.mac_addr)
        + (ser_opt_field("ec_version"@, v.ec_version) + "\n    }"@)))))))))
}

/// The comma-separated records of a non-empty device array.
pub open spec fn ser_dev_body(l: Seq<ServoView>) -> Seq<char>
    decreases l.len(),
{
    if l.len() <= 1 {
        ser_device(l[0])
    } else {
        ser_device(l[0]) + (",\n"@ + ser_dev_body(l.skip(1)))
    }
}

/// The device array: `[]` when empty, else one record per group of lines.
pub open spec fn ser_devs(l: Seq<ServoView>) -> Seq<char> {
    if l.len() == 0 {
        "[]"@
    } else {
        "[\n"@ + (ser_dev_body(l) + "\n  ]"@)
    }
}

/// The whole registry document.
pub open spec fn spec_serialize(l: Seq<ServoView>) -> Seq<char> {
    "{\n  \"devices\": "@ + (ser_devs(l) + "\n}"@)
}

/// Consume the exact literal `lit` from the head of `s`.
pub open spec fn p_lit(s: Seq<char>, lit: Seq<char>) -> Option<Seq<char>> {
    if has_prefix(s, lit) {
        Some(s.skip(lit.len() as int))
    } else {
        None
    }
}

/// The character denoted by the escape `\c`, if `\c` is a recognized escape.
pub open spec fn unesc_char(c: char) -> Option<char> {
    if c == '"' {
        Some('"')
    } else if c == '\\' {
        Some('\\')
    } else if c == 'n' {
        Some('\n')
    } else {
        None
    }
}

/// Consume the body of a JSON string literal up to and including the closing
/// quote, yielding the unescaped content.
pub open spec fn p_str_body(s: Seq<char>) -> Option<(Seq<char>, Seq<char>)>
    decreases s.len(),
{
    if s.len() == 0 {
        None
    } else if s[0] == '"' {
        Some((Seq::empty(), s.skip(1)))
    } else if s[0] == '\\' {
        if s.len() >= 2 {
            match unesc_char(s[1]) {
                Some(c) => match p_str_body(s.skip(2)) {
                    Some(p) => Some((seq![c] + p.0, p.1)),
                    None => None,
                },
                None => None,
            }
        } else {
            None
        }
    } else {
        match p_str_body(s.skip(1)) {
            Some(p) => Some((seq![s[0]] + p.0, p.1)),
            None => None,
        }
    }
}

/// Consume a JSON string literal.
pub open spec fn p_string(s: Seq<char>) -> Option<(Seq<char>, Seq<char>)> {
    match p_lit(s, seq!['"']) {
        Some(r) => p_str_body(r),
        None => None,
    }
}

/// Consume one tty entry.
pub open spec fn p_tty_entry(s: Seq<char>) -> Option<((Seq<char>, Seq<char>), Seq<char>)> {
    match p_lit(s, "        "@) {
        Some(r1) => match p_string(r1) {
            Some(kp) => match p_lit(kp.1, ": "@) {
                Some(r2) => match p_string(r2) {
                    Some(vp) => Some(((kp.0, vp.0), vp.1)),
                    None => None,
                },
                None => None,
            },
            None => None,
        },
        None => None,
    }
}

/// Consume the comma-separated entries of a non-empty tty object.
pub open spec fn p_tty_body(s: Seq<char>) -> Option<(Seq<(Seq<char>, Seq<char>)>, Seq<char>)>
    decreases s.len(),
{
    match p_tty_entry(s) {
        Some(ep) => if 2 <= ep.1.len() && ep.1[0] == ',' && ep.1[1] == '\n' {
            if ep.1.len() < s.len() {
                match p_tty_body(ep.1.skip(2)) {
                    Some(lp) => Some((seq![ep.0] + lp.0, lp.1)),
                    None => None,
                }
            } else {
                None
            }
        } else {
            Some((seq![ep.0], ep.1))
        },
        None => None,
    }
}

/// Consume a tty object.
pub open spec fn p_ttys(s: Seq<char>) -> Option<(Seq<(Seq<char>, Seq<char>)>, Seq<char>)> {
    match p_lit(s, "{}"@) {
        Some(r) => Some((Seq::empty(), r)),
        None => match p_lit(s, "{\n"@) {
            Some(r) => match p_tty_body(r) {
                Some(lp) => match p_lit(lp.1, "\n      }"@) {
                    Some(r2) => Some((lp.0, r2)),
                    None => None,
                },
                None => None,
            },
            None => None,
        },
    }
}

/// Consume an optional device field with the given name. Absence of the
/// field is not a failure: the input is returned unchanged.
pub open spec fn p_opt_field(s: Seq<char>, name: Seq<char>) -> Option<
    (Option<Seq<char>>, Seq<char>),
> {
    match p_lit(s, ",\n      \""@ + name + "\": "@) {
        Some(r) => match p_string(r) {
            Some(vp) => Some((Some(vp.0), vp.1)),
            None => None,
        },
        None => Some((None, s)),
    }
}

/// Consume one device record.
pub open spec fn p_device(s: Seq<char>) -> Option<(ServoView, Seq<char>)> {
    match p_lit(s, "    {\n      \"product\": "@) {
        Some(r1) => match p_string(r1) {
            Some(pp) => match p_lit(pp.1, ",\n      \"serial\": "@) {
                Some(r2) => match p_string(r2) {
                    Some(sp) => match p_lit(sp.1, ",\n      \"usb_sysfs_path\": "@) {
                        Some(r3) => match p_string(r3) {
                            Some(up) => match p_lit(up.1, ",\n      \"tty_list\": "@) {
                                Some(r4) => match p_ttys(r4) {
                                    Some(tp) => match p_opt_field(tp.1, "mac_addr"@) {
                                        Some(mp) => match p_opt_field(mp.1, "ec_version"@) {
                                            Some(evp) => match p_lit(evp.1, "\n    }"@) {
                                                Some(r5) => Some(
                                                    (
                                                        ServoView {
                                                            product: pp.0,
                                                            serial: sp.0,
                                                            usb_sysfs_path: up.0,
                                                            tty_list: tp.0,
                                                            mac_addr: mp.0,
                                                            ec_version: evp.0,
                                                        },
                                                        r5,
                                                    ),
                                                ),
                                                None => None,
                                            },
                                            None => None,
                                        },
                                        None => None,
                                    },
                                    None => None,
                                },
                                None => None,
                            },
                            None => None,
                        },
                        None => None,
                    },
                    None => None,
                },
                None => None,
            },
            None => None,
        },
        None => None,
    }
}

/// Consume the comma-separated records of a non-empty device array.
pub open spec fn p_dev_body(s: Seq<char>) -> Option<(Seq<ServoView>, Seq<char>)>
    decreases s.len(),
{
    match p_device(s) {
        Some(dp) => if 2 <= dp.1.len() && dp.1[0] == ',' && dp.1[1] == '\n' {
            if dp.1.len() < s.len() {
                match p_dev_body(dp.1.skip(2)) {
                    Some(lp) => Some((seq![dp.0] + lp.0, lp.1)),
                    None => None,
                }
            } else {
                None
            }
        } else {
            Some((seq![dp.0], dp.1))
        },
        None => None,
    }
}

/// Consume a device array.
pub open spec fn p_devs(s: Seq<char>) -> Option<(Seq<ServoView>, Seq<char>)> {
    match p_lit(s, "[]"@) {
        Some(r) => Some((Seq::empty(), r)),
        None => match p_lit(s, "[\n"@) {
            Some(r) => match p_dev_body(r) {
                Some(lp) => match p_lit(lp.1, "\n  ]"@) {
                    Some(r2) => Some((lp.0, r2)),
                    None => None,
                },
                None => None,
            },
            None => None,
        },
    }
}

/// Parse a whole registry document; the document must be consumed entirely.
pub open spec fn spec_parse(s: Seq<char>) -> Option<Seq<ServoView>> {
    match p_lit(s, "{\n  \"devices\": "@) {
        Some(r) => match p_devs(r) {
            Some(lp) => match p_lit(lp.1, "\n}"@) {
                Some(r2) => if r2.len() == 0 {
                    Some(lp.0)
                } else {
                    None
                },
                None => None,
            },
            None => None,
        },
        None => None,
    }
}

/// Concatenation of character sequences is associative.
proof fn lemma_assoc(a: Seq<char>, b: Seq<char>, c: Seq<char>)
    ensures
        (a + b) + c == a + (b + c),
{
    assert((a + b) + c =~= a + (b + c));
}

/// A literal peels off the front of its own concatenation.
proof fn lemma_peel(lit: Seq<char>, rest: Seq<char>)
    ensures
        p_lit(lit + rest, lit) == Some(rest),
{
    assert((lit + rest).subrange(0, lit.len() as int) =~= lit);
    assert((lit + rest).skip(lit.len() as int) =~= rest);
}

/// A literal fails to match when the input differs from it at position `k`.
proof fn lemma_lit_fail(s: Seq<char>, lit: Seq<char>, k: int)
    requires
        0 <= k < lit.len(),
        k < s.len(),
        s[k] != lit[k],
    ensures
        p_lit(s, lit) is None,
{
    if has_prefix(s, lit) {
        assert(s.subrange(0, lit.len() as int)[k] == s[k]);
    }
}

/// Parsing the escaped body of `v` followed by the closing quote yields `v`.
proof fn lemma_str_body_round(v: Seq<char>, rest: Seq<char>)
    ensures
        p_str_body(esc(v) + seq!['"'] + rest) == Some((v, rest)),
    decreases v.len(),
{
    let s = esc(v) + seq!['"'] + rest;
    if v.len() == 0 {
        assert(s =~= seq!['"'] + rest);
        assert(s[0] == '"');
        assert(s.skip(1) =~= rest);
        assert(v =~= Seq::<char>::empty());
    } else {
        let c = v[0];
        lemma_str_body_round(v.skip(1), rest);
        let tail = esc(v.skip(1)) + seq!['"'] + rest;
        if c == '"' || c == '\\' || c == '\n' {
            let m: char = if c == '"' {
                '"'
            } else if c == '\\' {
                '\\'
            } else {
                'n'
            };
            assert(esc_char(c) =~= seq!['\\', m]);
            assert(s =~= seq!['\\', m] + tail);
            assert(s[0] == '\\');
            assert(s[1] == m);
            assert(s.skip(2) =~= tail);
            assert(unesc_char(m) == Some(c));
            assert(seq![c] + v.skip(1) =~= v);
        } else {
            assert(esc_char(c) =~= seq![c]);
            assert(s =~= seq![c] + tail);
            assert(s[0] == c);
            assert(s.skip(1) =~= tail);
            assert(seq![c] + v.skip(1) =~= v);
        }
    }
}

/// Parsing a serialized string literal yields the original string.
proof fn lemma_string_round(v: Seq<char>, rest: Seq<char>)
    ensures
        p_string(ser_string(v) + rest) == Some((v, rest)),
{
    let s = ser_string(v) + rest;
    let tail = esc(v) + seq!['"'] + rest;
    assert(s =~= seq!['"'] + tail);
    lemma_peel(seq!['"'], tail);
    lemma_str_body_round(v, rest);
}

/// Parsing a serialized tty entry yields the original pair.
proof fn lemma_tty_entry_round(p: (Seq<char>, Seq<char>), rest: Seq<char>)
    ensures
        p_tty_entry(ser_tty_entry(p) + rest) == Some((p, rest)),
{
    let t2 = ": "@ + (ser_string(p.1) + rest);
    let t1 = ser_string(p.0) + t2;
    lemma_assoc(": "@, ser_string(p.1), rest);
    lemma_assoc(ser_string(p.0), ": "@ + ser_string(p.1), rest);
    assert(ser_tty_entry(p) + rest =~= "        "@ + t1);
    lemma_peel("        "@, t1);
    lemma_string_round(p.0, t2);
    lemma_peel(": "@, ser_string(p.1) + rest);
    lemma_string_round(p.1, rest);
    assert(p == (p.0, p.1));
}

/// Parsing serialized tty entries yields the original entries, provided the
/// following text does not begin like another entry separator.
proof fn lemma_tty_body_round(l: Seq<(Seq<char>, Seq<char>)>, rest: Seq<char>)
    requires
        l.len() >= 1,
        !(2 <= rest.len() && rest[0] == ',' && rest[1] == '\n'),
    ensures
        p_tty_body(ser_tty_body(l) + rest) == Some((l, rest)),
    decreases l.len(),
{
    reveal_strlit(",\n");
    reveal_strlit("        ");
    if l.len() == 1 {
        lemma_tty_entry_round(l[0], rest);
        assert(seq![l[0]] =~= l);
    } else {
        let tail = ser_tty_body(l.skip(1)) + rest;
        let mid = ",\n"@ + tail;
        lemma_assoc(",\n"@, ser_tty_body(l.skip(1)), rest);
        lemma_assoc(ser_tty_entry(l[0]), ",\n"@ + ser_tty_body(l.skip(1)), rest);
        let s = ser_tty_body(l) + rest;
        assert(s =~= ser_tty_entry(l[0]) + mid);
        lemma_tty_entry_round(l[0], mid);
        assert(mid[0] == ',');
        assert(mid[1] == '\n');
        assert(ser_tty_entry(l[0]).len() >= 8);
        assert(mid.len() < s.len());
        assert(mid.skip(2) =~= tail);
        lemma_tty_body_round(l.skip(1), rest);
        assert(seq![l[0]] + l.skip(1) =~= l);
    }
}

/// Parsing a serialized tty object yields the original mapping.
proof fn lemma_ttys_round(l: Seq<(Seq<char>, Seq<char>)>, rest: Seq<char>)
    ensures
        p_ttys(ser_ttys(l) + rest) == Some((l, rest)),
{
    reveal_strlit("{}");
    reveal_strlit("{\n");
    reveal_strlit("\n      }");
    if l.len() == 0 {
        lemma_peel("{}"@, rest);
        assert(l =~= Seq::<(Seq<char>, Seq<char>)>::empty());
    } else {
        let close = "\n      }"@ + rest;
        let body = ser_tty_body(l) + close;
        lemma_assoc(ser_tty_body(l), "\n      }"@, rest);
        lemma_assoc("{\n"@, ser_tty_body(l) + "\n      }"@, rest);
        let s = ser_ttys(l) + rest;
        assert(s == "{\n"@ + body);
        assert(s[1] == '\n');
        lemma_lit_fail(s, "{}"@, 1);
        lemma_peel("{\n"@, body);
        assert(close[0] == '\n');
        lemma_tty_body_round(l, close);
        lemma_peel("\n      }"@, rest);
    }
}

/// Parsing a serialized optional field yields the original optional value,
/// provided that, when the field is absent, the following text does not
/// begin like the field itself.
proof fn lemma_opt_field_round(name: Seq<char>, o: Option<Seq<char>>, rest: Seq<char>)
    requires
        o is None ==> p_lit(rest, ",\n      \""@ + name + "\": "@) is None,
    ensures
        p_opt_field(ser_opt_field(name, o) + rest, name) == Some((o, rest)),
{
    match o {
        None => {
            assert(ser_opt_field(name, o) + rest =~= rest);
        },
        Some(v) => {
            let lit = ",\n      \""@ + name + "\": "@;
            lemma_assoc(lit, ser_string(v), rest);
            lemma_peel(lit, ser_string(v) + rest);
            lemma_string_round(v, rest);
        },
    }
}

/// Parsing a serialized device record yields the original record.
proof fn lemma_device_round(v: ServoView, rest: Seq<char>)
    ensures
        p_device(ser_device(v) + rest) == Some((v, rest)),
{
    reveal_strlit("    {\n      \"product\": ");
    reveal_strlit(",\n      \"serial\": ");
    reveal_strlit(",\n      \"usb_sysfs_path\": ");
    reveal_strlit(",\n      \"tty_list\": ");
    reveal_strlit("\n    }");
    reveal_strlit(",\n      \"");
    reveal_strlit("\": ");
    reveal_strlit("mac_addr");
    reveal_strlit("ec_version");
    let mac_lit = ",\n      \""@ + "mac_addr"@ + "\": "@;
    let ec_lit = ",\n      \""@ + "ec_version"@ + "\": "@;
    let om = ser_opt_field("mac_addr"@, v.mac_addr);
    let oe = ser_opt_field("ec_version"@, v.ec_version);
    let l5 = "\n    }"@;
    let t9 = l5 + rest;
    let t8 = oe + t9;
    let t7 = om + t8;
    let t6 = ser_ttys(v.tty_list) + t7;
    let t5 = ",\n      \"tty_list\": "@ + t6;
    let t4 = ser_string(v.usb_sysfs_path) + t5;
    let t3 = ",\n      \"usb_sysfs_path\": "@ + t4;
    let t2 = ser_string(v.serial) + t3;
    let t1 = ",\n      \"serial\": "@ + t2;
    let t0 = ser_string(v.product) + t1;
    lemma_assoc(oe, l5, rest);
    lemma_assoc(om, oe + l5, rest);
    lemma_assoc(ser_ttys(v.tty_list), om + (oe + l5), rest);
    lemma_assoc(",\n      \"tty_list\": "@, ser_ttys(v.tty_list) + (om + (oe + l5)), rest);
    lemma_assoc(
        ser_string(v.usb_sysfs_path),
        ",\n      \"tty_list\": "@ + (ser_ttys(v.tty_list) + (om + (oe + l5))),
        rest,
    );
    lemma_assoc(
        ",\n      \"usb_sysfs_path\": "@,
        ser_string(v.usb_sysfs_path) + (",\n      \"tty_list\": "@ + (ser_ttys(v.tty_list) + (om
            + (oe + l5)))),
        rest,
    );
    lemma_assoc(
        ser_string(v.serial),
        ",\n      \"usb_sysfs_path\": "@ + (ser_string(v.usb_sysfs_path) + (
        ",\n      \"tty_list\": "@ + (ser_ttys(v.tty_list) + (om + (oe + l5))))),
        rest,
    );
    lemma_assoc(
        ",\n      \"serial\": "@,
        ser_string(v.serial) + (",\n      \"usb_sysfs_path\": "@ + (ser_string(v.usb_sysfs_path)
            + (",\n      \"tty_list\": "@ + (ser_ttys(v.tty_list) + (om + (oe + l5)))))),
        rest,
    );
    lemma_assoc(
        ser_string(v.product),
        ",\n      \"serial\": "@ + (ser_string(v.serial) + (",\n      \"usb_sysfs_path\": "@ + (
        ser_string(v.usb_sysfs_path) + (",\n      \"tty_list\": "@ + (ser_ttys(v.tty_list) + (om
            + (oe + l5))))))),
        rest,
    );
    lemma_assoc(
        "    {\n      \"product\": "@,
        ser_string(v.product) + (",\n      \"serial\": "@ + (ser_string(v.serial) + (
        ",\n      \"usb_sysfs_path\": "@ + (ser_string(v.usb_sysfs_path) + (
        ",\n      \"tty_list\": "@ + (ser_ttys(v.tty_list) + (om + (oe + l5)))))))),
        rest,
    );
    let s = ser_device(v) + rest;
    assert(s == "    {\n      \"product\": "@ + t0);
    lemma_peel("    {\n      \"product\": "@, t0);
    lemma_string_round(v.product, t1);
    lemma_peel(",\n      \"serial\": "@, t2);
    lemma_string_round(v.serial, t3);
    lemma_peel(",\n      \"usb_sysfs_path\": "@, t4);
    lemma_string_round(v.usb_sysfs_path, t5);
    lemma_peel(",\n      \"tty_list\": "@, t6);
    lemma_ttys_round(v.tty_list, t7);
    if v.mac_addr is None {
        assert(t7 == t8);
        match v.ec_version {
            Some(e) => {
                lemma_assoc(ec_lit, ser_string(e), t9);
                assert(t8 == ec_lit + (ser_string(e) + t9));
                assert(t8[9] == 'e');
                assert(mac_lit[9] == 'm');
                lemma_lit_fail(t8, mac_lit, 9);
            },
            None => {
                assert(t8 == t9);
                assert(t9[0] == '\n');
                assert(mac_lit[0] == ',');
                lemma_lit_fail(t8, mac_lit, 0);
            },
        }
    }
    lemma_opt_field_round("mac_addr"@, v.mac_addr, t8);
    if v.ec_version is None {
        assert(t8 == t9);
        assert(t9[0] == '\n');
        assert(ec_lit[0] == ',');
        lemma_lit_fail(t9, ec_lit, 0);
    }
    lemma_opt_field_round("ec_version"@, v.ec_version, t9);
    lemma_peel(l5, rest);
    assert(ServoView {
        product: v.product,
        serial: v.serial,
        usb_sysfs_path: v.usb_sysfs_path,
        tty_list: v.tty_list,
        mac_addr: v.mac_addr,
        ec_version: v.ec_version,
    } =~= v);
}

/// Parsing serialized device records yields the original records, provided
/// the following text does not begin like another record separator.
proof fn lemma_dev_body_round(l: Seq<ServoView>, rest: Seq<char>)
    requires
        l.len() >= 1,
        !(2 <= rest.len() && rest[0] == ',' && rest[1] == '\n'),
    ensures
        p_dev_body(ser_dev_body(l) + rest) == Some((l, rest)),
    decreases l.len(),
{
    reveal_strlit(",\n");
    reveal_strlit("    {\n      \"product\": ");
    if l.len() == 1 {
        lemma_device_round(l[0], rest);
        assert(seq![l[0]] =~= l);
    } else {
        let tail = ser_dev_body(l.skip(1)) + rest;
        let mid = ",\n"@ + tail;
        lemma_assoc(",\n"@, ser_dev_body(l.skip(1)), rest);
        lemma_assoc(ser_device(l[0]), ",\n"@ + ser_dev_body(l.skip(1)), rest);
        let s = ser_dev_body(l) + rest;
        assert(s == ser_device(l[0]) + mid);
        lemma_device_round(l[0], mid);
        assert(mid[0] == ',');
        assert(mid[1] == '\n');
        assert(ser_device(l[0]).len() >= 24);
        assert(mid.len() < s.len());
        assert(mid.skip(2) =~= tail);
        lemma_dev_body_round(l.skip(1), rest);
        assert(seq![l[0]] + l.skip(1) =~= l);
    }
}

/// Parsing a serialized device array yields the original devices.
proof fn lemma_devs_round(l: Seq<ServoView>, rest: Seq<char>)
    ensures
        p_devs(ser_devs(l) + rest) == Some((l, rest)),
{
    reveal_strlit("[]");
    reveal_strlit("[\n");
    reveal_strlit("\n  ]");
    if l.len() == 0 {
        lemma_peel("[]"@, rest);
        assert(l =~= Seq::<ServoView>::empty());
    } else {
        let close = "\n  ]"@ + rest;
        let body = ser_dev_body(l) + close;
        lemma_assoc(ser_dev_body(l), "\n  ]"@, rest);
        lemma_assoc("[\n"@, ser_dev_body(l) + "\n  ]"@, rest);
        let s = ser_devs(l) + rest;
        assert(s == "[\n"@ + body);
        assert(s[1] == '\n');
        lemma_lit_fail(s, "[]"@, 1);
        lemma_peel("[\n"@, body);
        assert(close[0] == '\n');
        lemma_dev_body_round(l, close);
        lemma_peel("\n  ]"@, rest);
    }
}

/// The registry codec round trip: parsing a serialized registry yields
/// exactly the registry that was serialized, absent optional fields
/// included.
pub proof fn lemma_registry_round_trip(l: Seq<ServoView>)
    ensures
        spec_parse(spec_serialize(l)) == Some(l),
{
    reveal_strlit("{\n  \"devices\": ");
    reveal_strlit("\n}");
    let close = "\n}"@;
    let t0 = ser_devs(l) + close;
    let s = spec_serialize(l);
    assert(s == "{\n  \"devices\": "@ + t0);
    lemma_peel("{\n  \"devices\": "@, t0);
    lemma_devs_round(l, close);
    lemma_peel(close, Seq::empty());
    assert(close + Seq::<char>::empty() =~= close);
    assert(Seq::<char>::empty().len() == 0);
}

/// The first-run bootstrap is stable: the text persisted for an empty
/// registry parses back to the same empty registry, so a later read does
/// not recreate or alter it.
pub proof fn lemma_bootstrap_round_trip()
    ensures
        spec_parse(spec_serialize(Seq::<ServoView>::empty())) == Some(Seq::<ServoView>::empty()),
{
    lemma_registry_round_trip(Seq::<ServoView>::empty());
}

/// Escaping distributes over appending one character.
proof fn lemma_esc_push(a: Seq<char>, c: char)
    ensures
        esc(a.push(c)) == esc(a) + esc_char(c),
    decreases a.len(),
{
    if a.len() == 0 {
        assert(a.push(c)[0] == c);
        assert(a.push(c).skip(1) =~= Seq::<char>::empty());
        assert(esc(a.push(c).skip(1)) =~= Seq::<char>::empty());
        assert(esc(a.push(c)) =~= esc(a) + esc_char(c));
    } else {
        assert(a.push(c)[0] == a[0]);
        assert(a.push(c).skip(1) =~= a.skip(1).push(c));
        lemma_esc_push(a.skip(1), c);
        assert(esc(a.push(c)) =~= esc(a) + esc_char(c));
    }
}

/// Append the characters of `lit` to `out`.
fn w_lit(out: &mut Vec<char>, lit: &str)
    ensures
        final(out)@ == old(out)@ + lit@,
{
    let mut c = crate::chars::str_to_chars(lit);
    out.append(&mut c);
}

/// Append the serialized string literal for `s` to `out`.
fn w_string(out: &mut Vec<char>, s: &str)
    ensures
        final(out)@ == old(out)@ + ser_string(s@),
{
    let ghost base = out@;
    let cs = crate::chars::str_to_chars(s);
    out.push('"');
    let mut i: usize = 0;
    while i < cs.len()
        invariant
            i <= cs@.len(),
            cs@ == s@,
            out@ == base + seq!['"'] + esc(s@.subrange(0, i as int)),
        decreases cs@.len() - i,
    {
        let c = cs[i];
        if c == '"' {
            out.push('\\');
            out.push('"');
        } else if c == '\\' {
            out.push('\\');
            out.push('\\');
        } else if c == '\n' {
            out.push('\\');
            out.push('n');
        } else {
            out.push(c);
        }
        proof {
            lemma_esc_push(s@.subrange(0, i as int), s@[i as int]);
            assert(s@.subrange(0, i + 1 as int) =~= s@.subrange(0, i as int).push(s@[i as int]));
            assert(out@ =~= base + seq!['"'] + esc(s@.subrange(0, i + 1 as int)));
        }
        i = i + 1;
    }
    out.push('"');
    proof {
        assert(s@.subrange(0, s@.len() as int) =~= s@);
        assert(out@ =~= base + ser_string(s@));
    }
}

/// Append the serialized entries of the non-empty tty list `l`, starting at
/// entry `i`, to `out`.
fn w_tty_body(out: &mut Vec<char>, l: &Vec<(String, String)>, i: usize)
    requires
        i < l@.len(),
    ensures
        final(out)@ == old(out)@ + ser_tty_body(crate::servo::tty_views(l@).skip(i as int)),
    decreases l@.len() - i,
{
    let ghost base = out@;
    let ghost views = crate::servo::tty_views(l@).skip(i as int);
    w_lit(out, "        ");
    w_string(out, l[i].0.as_str());
    w_lit(out, ": ");
    w_string(out, l[i].1.as_str());
    proof {
        assert(views[0] == (l@[i as int].0@, l@[i as int].1@));
        assert(out@ =~= base + ser_tty_entry(views[0]));
    }
    if i < l.len() - 1 {
        w_lit(out, ",\n");
        w_tty_body(out, l, i + 1);
        proof {
            assert(views.skip(1) =~= crate::servo::tty_views(l@).skip(i + 1 as int));
            assert(out@ =~= base + ser_tty_body(views));
        }
    } else {
        assert(views.len() == 1);
    }
}

/// Append the serialized tty object for `l` to `out`.
fn w_ttys(out: &mut Vec<char>, l: &Vec<(String, String)>)
    ensures
        final(out)@ == old(out)@ + ser_ttys(crate::servo::tty_views(l@)),
{
    let ghost base = out@;
    if l.len() == 0 {
        w_lit(out, "{}");
    } else {
        w_lit(out, "{\n");
        w_tty_body(out, l, 0);
        w_lit(out, "\n      }");
        proof {
            assert(crate::servo::tty_views(l@).skip(0) =~= crate::servo::tty_views(l@));
            assert(out@ =~= base + ser_ttys(crate::servo::tty_views(l@)));
        }
    }
}

/// Append the serialized optional field `name` to `out`.
fn w_opt_field(out: &mut Vec<char>, name: &str, o: &Option<String>)
    ensures
        final(out)@ == old(out)@ + ser_opt_field(
            name@,
            match *o {
                Some(s) => Some(s@),
                None => None,
            },
        ),
{
    let ghost base = out@;
    match o {
        None => {
            assert(out@ =~= base + ser_opt_field(name@, None));
        },
        Some(v) => {
            w_lit(out, ",\n      \"");
            w_lit(out, name);
            w_lit(out, "\": ");
            w_string(out, v.as_str());
            assert(out@ =~= base + ser_opt_field(name@, Some(v@)));
        },
    }
}

/// Append the serialized record for the device `d` to `out`.
#[verifier::rlimit(100)]
fn w_device(out: &mut Vec<char>, d: &crate::servo::LocalServo)
    ensures
        final(out)@ == old(out)@ + ser_device(d@),
{
    let ghost base = out@;
    w_lit(out, "    {\n      \"product\": ");
    w_string(out, d.product());
    w_lit(out, ",\n      \"serial\": ");
    w_string(out, d.serial());
    w_lit(out, ",\n      \"usb_sysfs_path\": ");
    w_string(out, d.usb_sysfs_path());
    w_lit(out, ",\n      \"tty_list\": ");
    w_ttys(out, d.tty_list());
    w_opt_field(out, "mac_addr", d.mac_addr());
    w_opt_field(out, "ec_version", d.ec_version());
    w_lit(out, "\n    }");
    proof {
        assert(out@ =~= base + ser_device(d@));
    }
}

/// Append the serialized records of the non-empty device list `l`, starting
/// at device `i`, to `out`.
fn w_dev_body(out: &mut Vec<char>, l: &Vec<crate::servo::LocalServo>, i: usize)
    requires
        i < l@.len(),
    ensures
        final(out)@ == old(out)@ + ser_dev_body(crate::servo::servo_views(l@).skip(i as int)),
    decreases l@.len() - i,
{
    let ghost base = out@;
    let ghost views = crate::servo::servo_views(l@).skip(i as int);
    w_device(out, &l[i]);
    proof {
        assert(views[0] == l@[i as int]@);
    }
    if i < l.len() - 1 {
        w_lit(out, ",\n");
        w_dev_body(out, l, i + 1);
        proof {
            assert(views.skip(1) =~= crate::servo::servo_views(l@).skip(i + 1 as int));
            assert(out@ =~= base + ser_dev_body(views));
        }
    } else {
        assert(views.len() == 1);
    }
}

/// The serialized registry document for the devices `l`, as characters.
pub fn serialize_devices(l: &Vec<crate::servo::LocalServo>) -> (r: Vec<char>)
    ensures
        r@ == spec_serialize(crate::servo::servo_views(l@)),
{
    let mut out: Vec<char> = Vec::new();
    w_lit(&mut out, "{\n  \"devices\": ");
    if l.len() == 0 {
        w_lit(&mut out, "[]");
    } else {
        w_lit(&mut out, "[\n");
        w_dev_body(&mut out, l, 0);
        w_lit(&mut out, "\n  ]");
        proof {
            assert(crate::servo::servo_views(l@).skip(0) =~= crate::servo::servo_views(l@));
        }
    }
    w_lit(&mut out, "\n}");
    proof {
        assert(out@ =~= spec_serialize(crate::servo::servo_views(l@)));
    }
    out
}

/// Consume the literal `lit` at position `i`.
fn x_lit(v: &Vec<char>, i: usize, lit: &str) -> (r: Option<usize>)
    requires
        i <= v@.len(),
    ensures
        match r {
            Some(j) => i <= j <= v@.len() && p_lit(v@.skip(i as int), lit@) == Some(
                v@.skip(j as int),
            ),
            None => p_lit(v@.skip(i as int), lit@) is None,
        },
{
    let n = v.len();
    let litc = crate::chars::str_to_chars(lit);
    if crate::chars::chars_match_at(v, i, &litc) {
        assert(litc@.len() <= n - i);
        let j = i + litc.len();
        assert(v@.skip(i as int).skip(lit@.len() as int) =~= v@.skip(j as int));
        Some(j)
    } else {
        None
    }
}

/// Consume a string-literal body at position `i`, unescaping it.
fn x_str_body(v: &Vec<char>, i: usize) -> (r: Option<(Vec<char>, usize)>)
    requires
        i <= v@.len(),
    ensures
        match r {
            Some(p) => i <= p.1 <= v@.len() && p_str_body(v@.skip(i as int)) == Some(
                (p.0@, v@.skip(p.1 as int)),
            ),
            None => p_str_body(v@.skip(i as int)) is None,
        },
    decreases v@.len() - i,
{
    let n = v.len();
    let ghost s = v@.skip(i as int);
    if i == n {
        return None;
    }
    let c = v[i];
    assert(s[0] == c);
    if c == '"' {
        assert(s.skip(1) =~= v@.skip(i + 1 as int));
        Some((Vec::new(), i + 1))
    } else if c == '\\' {
        if i + 1 == n {
            return None;
        }
        let e = v[i + 1];
        assert(s[1] == e);
        let m: char = if e == '"' {
            '"'
        } else if e == '\\' {
            '\\'
        } else if e == 'n' {
            '\n'
        } else {
            return None;
        };
        assert(unesc_char(e) == Some(m));
        assert(s.skip(2) =~= v@.skip(i + 2 as int));
        match x_str_body(v, i + 2) {
            Some(p) => {
                let (mut sub, j) = p;
                let mut out: Vec<char> = Vec::new();
                out.push(m);
                out.append(&mut sub);
                assert(out@ =~= seq![m] + p.0@);
                Some((out, j))
            },
            None => None,
        }
    } else {
        assert(s.skip(1) =~= v@.skip(i + 1 as int));
        match x_str_body(v, i + 1) {
            Some(p) => {
                let (mut sub, j) = p;
                let mut out: Vec<char> = Vec::new();
                out.push(c);
                out.append(&mut sub);
                assert(out@ =~= seq![c] + p.0@);
                Some((out, j))
            },
            None => None,
        }
    }
}

/// Consume a string literal at position `i`.
fn x_string(v: &Vec<char>, i: usize) -> (r: Option<(String, usize)>)
    requires
        i <= v@.len(),
    ensures
        match r {
            Some(p) => i <= p.1 <= v@.len() && p_string(v@.skip(i as int)) == Some(
                (p.0@, v@.skip(p.1 as int)),
            ),
            None => p_string(v@.skip(i as int)) is None,
        },
{
    let n = v.len();
    let ghost s = v@.skip(i as int);
    if i == n {
        assert(!has_prefix(s, seq!['"']));
        return None;
    }
    if v[i] != '"' {
        assert(s[0] != '"');
        assert(!has_prefix(s, seq!['"'])) by {
            if has_prefix(s, seq!['"']) {
                assert(s.subrange(0, 1)[0] == s[0]);
            }
        }
        return None;
    }
    assert(s[0] == '"');
    assert(has_prefix(s, seq!['"'])) by {
        assert(s.subrange(0, 1) =~= seq![s[0]]);
    }
    assert(s.skip(1) =~= v@.skip(i + 1 as int));
    match x_str_body(v, i + 1) {
        Some(p) => {
            let (chars, j) = p;
            let out = crate::chars::chars_to_string(&chars);
            Some((out, j))
        },
        None => None,
    }
}

/// Consume one tty entry at position `i`.
fn x_tty_entry(v: &Vec<char>, i: usize) -> (r: Option<((String, String), usize)>)
    requires
        i <= v@.len(),
    ensures
        match r {
            Some(p) => i <= p.1 <= v@.len() && p_tty_entry(v@.skip(i as int)) == Some(
                ((p.0.0@, p.0.1@), v@.skip(p.1 as int)),
            ),
            None => p_tty_entry(v@.skip(i as int)) is None,
        },
{
    match x_lit(v, i, "        ") {
        Some(j1) => match x_string(v, j1) {
            Some(kp) => {
                let (key, j2) = kp;
                match x_lit(v, j2, ": ") {
                    Some(j3) => match x_string(v, j3) {
                        Some(vp) => {
                            let (val, j4) = vp;
                            Some(((key, val), j4))
                        },
                        None => None,
                    },
                    None => None,
                }
            },
            None => None,
        },
        None => None,
    }
}

/// Consume the entries of a non-empty tty object at position `i`.
fn x_tty_body(v: &Vec<char>, i: usize) -> (r: Option<(Vec<(String, String)>, usize)>)
    requires
        i <= v@.len(),
    ensures
        match r {
            Some(p) => i <= p.1 <= v@.len() && p_tty_body(v@.skip(i as int)) == Some(
                (crate::servo::tty_views(p.0@), v@.skip(p.1 as int)),
            ),
            None => p_tty_body(v@.skip(i as int)) is None,
        },
    decreases v@.len() - i,
{
    let n = v.len();
    let ghost s = v@.skip(i as int);
    match x_tty_entry(v, i) {
        Some(ep) => {
            let (pair, j1) = ep;
            let ghost rest = v@.skip(j1 as int);
            if j1 < n && v[j1] == ',' && j1 + 1 < n && v[j1 + 1] == '\n' {
                assert(2 <= rest.len() && rest[0] == ',' && rest[1] == '\n');
                if i < j1 {
                    assert(rest.len() < s.len());
                    assert(rest.skip(2) =~= v@.skip(j1 + 2 as int));
                    match x_tty_body(v, j1 + 2) {
                        Some(lp) => {
                            let (mut sub, j2) = lp;
                            let ghost subviews = crate::servo::tty_views(lp.0@);
                            let mut out: Vec<(String, String)> = Vec::new();
                            out.push(pair);
                            out.append(&mut sub);
                            assert(crate::servo::tty_views(out@) =~= seq![(ep.0.0@, ep.0.1@)]
                                + subviews);
                            Some((out, j2))
                        },
                        None => None,
                    }
                } else {
                    assert(rest.len() >= s.len());
                    None
                }
            } else {
                assert(!(2 <= rest.len() && rest[0] == ',' && rest[1] == '\n'));
                let mut out: Vec<(String, String)> = Vec::new();
                out.push(pair);
                assert(crate::servo::tty_views(out@) =~= seq![(ep.0.0@, ep.0.1@)]);
                Some((out, j1))
            }
        },
        None => None,
    }
}

/// Consume a tty object at position `i`.
fn x_ttys(v: &Vec<char>, i: usize) -> (r: Option<(Vec<(String, String)>, usize)>)
    requires
        i <= v@.len(),
    ensures
        match r {
            Some(p) => i <= p.1 <= v@.len() && p_ttys(v@.skip(i as int)) == Some(
                (crate::servo::tty_views(p.0@), v@.skip(p.1 as int)),
            ),
            None => p_ttys(v@.skip(i as int)) is None,
        },
{
    match x_lit(v, i, "{}") {
        Some(j) => {
            let out: Vec<(String, String)> = Vec::new();
            assert(crate::servo::tty_views(out@) =~= Seq::<(Seq<char>, Seq<char>)>::empty());
            Some((out, j))
        },
        None => match x_lit(v, i, "{\n") {
            Some(j1) => match x_tty_body(v, j1) {
                Some(lp) => {
                    let (l, j2) = lp;
                    match x_lit(v, j2, "\n      }") {
                        Some(j3) => Some((l, j3)),
                        None => None,
                    }
                },
                None => None,
            },
            None => None,
        },
    }
}

/// Consume an optional device field at position `i`. `full` must spell the
/// field's whole introducing literal for `name`.
fn x_opt_field(v: &Vec<char>, i: usize, name: &str, full: &str) -> (r: Option<
    (Option<String>, usize),
>)
    requires
        i <= v@.len(),
        full@ == ",\n      \""@ + name@ + "\": "@,
    ensures
        match r {
            Some(p) => i <= p.1 <= v@.len() && p_opt_field(v@.skip(i as int), name@) == Some(
                (
                    match p.0 {
                        Some(x) => Some(x@),
                        None => None,
                    },
                    v@.skip(p.1 as int),
                ),
            ),
            None => p_opt_field(v@.skip(i as int), name@) is None,
        },
{
    match x_lit(v, i, full) {
        Some(j1) => match x_string(v, j1) {
            Some(vp) => {
                let (val, j2) = vp;
                Some((Some(val), j2))
            },
            None => None,
        },
        None => Some((None, i)),
    }
}

/// Consume one device record at position `i`.
fn x_device(v: &Vec<char>, i: usize) -> (r: Option<(crate::servo::LocalServo, usize)>)
    requires
        i <= v@.len(),
    ensures
        match r {
            Some(p) => i <= p.1 <= v@.len() && p_device(v@.skip(i as int)) == Some(
                (p.0@, v@.skip(p.1 as int)),
            ),
            None => p_device(v@.skip(i as int)) is None,
        },
{
    proof {
        reveal_strlit(",\n      \"");
        reveal_strlit("\": ");
        reveal_strlit("mac_addr");
        reveal_strlit("ec_version");
        reveal_strlit(",\n      \"mac_addr\": ");
        reveal_strlit(",\n      \"ec_version\": ");
        assert(",\n      \"mac_addr\": "@ =~= ",\n      \""@ + "mac_addr"@ + "\": "@);
        assert(",\n      \"ec_version\": "@ =~= ",\n      \""@ + "ec_version"@ + "\": "@);
    }
    let r1 = match x_lit(v, i, "    {\n      \"product\": ") {
        Some(j) => j,
        None => {
            return None;
        },
    };
    let (product, r2) = match x_string(v, r1) {
        Some(p) => p,
        None => {
            return None;
        },
    };
    let r3 = match x_lit(v, r2, ",\n      \"serial\": ") {
        Some(j) => j,
        None => {
            return None;
        },
    };
    let (serial, r4) = match x_string(v, r3) {
        Some(p) => p,
        None => {
            return None;
        },
    };
    let r5 = match x_lit(v, r4, ",\n      \"usb_sysfs_path\": ") {
        Some(j) => j,
        None => {
            return None;
        },
    };
    let (usb_sysfs_path, r6) = match x_string(v, r5) {
        Some(p) => p,
        None => {
            return None;
        },
    };
    let r7 = match x_lit(v, r6, ",\n      \"tty_list\": ") {
        Some(j) => j,
        None => {
            return None;
        },
    };
    let (tty_list, r8) = match x_ttys(v, r7) {
        Some(p) => p,
        None => {
            return None;
        },
    };
    let (mac_addr, r9) = match x_opt_field(v, r8, "mac_addr", ",\n      \"mac_addr\": ") {
        Some(p) => p,
        None => {
            return None;
        },
    };
    let (ec_version, r10) = match x_opt_field(v, r9, "ec_version", ",\n      \"ec_version\": ") {
        Some(p) => p,
        None => {
            return None;
        },
    };
    let r11 = match x_lit(v, r10, "\n    }") {
        Some(j) => j,
        None => {
            return None;
        },
    };
    let ghost pv = product@;
    let ghost sv = serial@;
    let ghost uv = usb_sysfs_path@;
    let ghost tv = crate::servo::tty_views(tty_list@);
    let ghost mv: Option<Seq<char>> = match &mac_addr {
        Some(x) => Some(x@),
        None => None,
    };
    let ghost ev: Option<Seq<char>> = match &ec_version {
        Some(x) => Some(x@),
        None => None,
    };
    let d = crate::servo::LocalServo::new(
        product,
        serial,
        usb_sysfs_path,
        tty_list,
        mac_addr,
        ec_version,
    );
    proof {
        assert(d@ =~= ServoView {
            product: pv,
            serial: sv,
            usb_sysfs_path: uv,
            tty_list: tv,
            mac_addr: mv,
            ec_version: ev,
        });
    }
    Some((d, r11))
}

/// Consume the records of a non-empty device array at position `i`.
fn x_dev_body(v: &Vec<char>, i: usize) -> (r: Option<(Vec<crate::servo::LocalServo>, usize)>)
    requires
        i <= v@.len(),
    ensures
        match r {
            Some(p) => i <= p.1 <= v@.len() && p_dev_body(v@.skip(i as int)) == Some(
                (crate::servo::servo_views(p.0@), v@.skip(p.1 as int)),
            ),
            None => p_dev_body(v@.skip(i as int)) is None,
        },
    decreases v@.len() - i,
{
    let n = v.len();
    let ghost s = v@.skip(i as int);
    match x_device(v, i) {
        Some(dp) => {
            let (dev, j1) = dp;
            let ghost devview = dp.0@;
            let ghost rest = v@.skip(j1 as int);
            if j1 < n && v[j1] == ',' && j1 + 1 < n && v[j1 + 1] == '\n' {
                assert(2 <= rest.len() && rest[0] == ',' && rest[1] == '\n');
                if i < j1 {
                    assert(rest.len() < s.len());
                    assert(rest.skip(2) =~= v@.skip(j1 + 2 as int));
                    match x_dev_body(v, j1 + 2) {
                        Some(lp) => {
                            let (mut sub, j2) = lp;
                            let ghost subviews = crate::servo::servo_views(lp.0@);
                            let mut out: Vec<crate::servo::LocalServo> = Vec::new();
                            out.push(dev);
                            out.append(&mut sub);
                            assert(crate::servo::servo_views(out@) =~= seq![devview] + subviews);
                            Some((out, j2))
                        },
                        None => None,
                    }
                } else {
                    assert(rest.len() >= s.len());
                    None
                }
            } else {
                assert(!(2 <= rest.len() && rest[0] == ',' && rest[1] == '\n'));
                let mut out: Vec<crate::servo::LocalServo> = Vec::new();
                out.push(dev);
                assert(crate::servo::servo_views(out@) =~= seq![devview]);
                Some((out, j1))
            }
        },
        None => None,
    }
}

/// Consume a device array at position `i`.
fn x_devs(v: &Vec<char>, i: usize) -> (r: Option<(Vec<crate::servo::LocalServo>, usize)>)
    requires
        i <= v@.len(),
    ensures
        match r {
            Some(p) => i <= p.1 <= v@.len() && p_devs(v@.skip(i as int)) == Some(
                (crate::servo::servo_views(p.0@), v@.skip(p.1 as int)),
            ),
            None => p_devs(v@.skip(i as int)) is None,
        },
{
    match x_lit(v, i, "[]") {
        Some(j) => {
            let out: Vec<crate::servo::LocalServo> = Vec::new();
            assert(crate::servo::servo_views(out@) =~= Seq::<ServoView>::empty());
            Some((out, j))
        },
        None => match x_lit(v, i, "[\n") {
            Some(j1) => match x_dev_body(v, j1) {
                Some(lp) => {
                    let (l, j2) = lp;
                    match x_lit(v, j2, "\n  ]") {
                        Some(j3) => Some((l, j3)),
                        None => None,
                    }
                },
                None => None,
            },
            None => None,
        },
    }
}

/// Parse a whole registry document, given as characters.
pub fn parse_devices(v: &Vec<char>) -> (r: Option<Vec<crate::servo::LocalServo>>)
    ensures
        match r {
            Some(l) => spec_parse(v@) == Some(crate::servo::servo_views(l@)),
            None => spec_parse(v@) is None,
        },
{
    assert(v@.skip(0) =~= v@);
    let j1 = match x_lit(v, 0, "{\n  \"devices\": ") {
        Some(j) => j,
        None => {
            return None;
        },
    };
    let (l, j2) = match x_devs(v, j1) {
        Some(p) => p,
        None => {
            return None;
        },
    };
    let j3 = match x_lit(v, j2, "\n}") {
        Some(j) => j,
        None => {
            return None;
        },
    };
    if j3 == v.len() {
        assert(v@.skip(j3 as int).len() == 0);
        Some(l)
    } else {
        assert(v@.skip(j3 as int).len() != 0);
        None
    }
}

/// The result of reading the persisted registry.
pub enum ReadOutcome {
    /// The persisted document was found and parsed.
    Loaded(ServoList),
    /// No document existed: an empty registry was created, together with the
    /// text that must be persisted at once (first-run bootstrap).
    Created(ServoList, String),
}

impl ServoList {
    /// The registry document for this registry, pretty-printed.
    pub fn to_json(&self) -> (r: String)
        ensures
            r@ == spec_serialize(self@),
    {
        let chars = serialize_devices(self.devices());
        crate::chars::chars_to_string(&chars)
    }

    /// Load the registry from the persisted document's text. With no
    /// document (`None`), an empty registry is created and handed back with
    /// the text to persist; a document that does not parse is rejected.
    pub fn read(contents: Option<&str>) -> (r: Result<ReadOutcome, ServoError>)
        ensures
            match contents {
                None => r matches Ok(ReadOutcome::Created(l, text)) && l@
                    == Seq::<ServoView>::empty() && text@ == spec_serialize(
                    Seq::<ServoView>::empty(),
                ),
                Some(s) => match spec_parse(s@) {
                    Some(vs) => r matches Ok(ReadOutcome::Loaded(l)) && l@ == vs,
                    None => r == Err::<ReadOutcome, ServoError>(ServoError::InvalidRegistry),
                },
            },
    {
        match contents {
            None => {
                let devices: Vec<LocalServo> = Vec::new();
                proof {
                    assert(servo_views(devices@) =~= Seq::<ServoView>::empty());
                }
                let empty = ServoList::new(devices);
                let text = empty.to_json();
                Ok(ReadOutcome::Created(empty, text))
            },
            Some(s) => {
                let chars = crate::chars::str_to_chars(s);
                match parse_devices(&chars) {
                    Some(devs) => Ok(ReadOutcome::Loaded(ServoList::new(devs))),
                    None => Err(ServoError::InvalidRegistry),
                }
            },
        }
    }

    /// Replace the whole registry with a freshly discovered device set, as
    /// the slow refresh does, and give the document text to persist.
    pub fn update(devices: Vec<LocalServo>) -> (r: (ServoList, String))
        ensures
            r.0@ == servo_views(devices@),
            r.1@ == spec_serialize(servo_views(devices@)),
    {
        let list = ServoList::new(devices);
        let text = list.to_json();
        (list, text)
    }
}

} // verus!
