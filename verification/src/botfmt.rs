//! Text building for the bot's report displays: compact number
//! formatting and the labelled resource/building/defense/fleet blocks of
//! a spy report.

use vstd::prelude::*;
use vstd::string::StrSliceExecFns;
use vstd::string::StringExecFns;
use crate::i18n::{t, t_spec, valid_language};
use crate::models::{count_of, count_map_get, CountMap};
use crate::textutil::{dec_string, dec_string_i64, u64_to_string, i64_to_string};

verus! {

/// The compact rendering of a count: millions and thousands to one
/// decimal place (fixed-point, half-up), smaller values plain.
pub open spec fn number_text(n: int) -> Seq<char> {
    let a = if n < 0 {
        -n
    } else {
        n
    };
    let sign = if n < 0 {
        seq!['-']
    } else {
        Seq::<char>::empty()
    };
    if a >= 1000000 {
        let tenths = (a + 50000) / 100000;
        sign + dec_string(tenths / 10) + seq!['.'] + dec_string(tenths % 10) + seq!['M']
    } else if a >= 1000 {
        let tenths = (a + 50) / 100;
        sign + dec_string(tenths / 10) + seq!['.'] + dec_string(tenths % 10) + seq!['K']
    } else {
        dec_string_i64(n)
    }
}

/// Formats a count compactly: `1.5M`, `2.3K`, or the plain number.
pub fn format_number(n: i64) -> (r: String)
    ensures
        r@ == number_text(n as int),
{
    let a: u64 = if n < 0 {
        ((-(n + 1)) as u64) + 1
    } else {
        n as u64
    };
    if a >= 1000000 {
        let tenths = (a + 50000) / 100000;
        let mut out = if n < 0 {
            String::from_str("-")
        } else {
            String::new()
        };
        out.append(u64_to_string(tenths / 10).as_str());
        out.append(".");
        out.append(u64_to_string(tenths % 10).as_str());
        out.append("M");
        proof {
            reveal_strlit("-");
            reveal_strlit(".");
            reveal_strlit("M");
            assert(out@ =~= number_text(n as int));
        }
        out
    } else if a >= 1000 {
        let tenths = (a + 50) / 100;
        let mut out = if n < 0 {
            String::from_str("-")
        } else {
            String::new()
        };
        out.append(u64_to_string(tenths / 10).as_str());
        out.append(".");
        out.append(u64_to_string(tenths % 10).as_str());
        out.append("K");
        proof {
            reveal_strlit("-");
            reveal_strlit(".");
            reveal_strlit("K");
            assert(out@ =~= number_text(n as int));
        }
        out
    } else {
        let r = i64_to_string(n);
        proof {
            assert(r@ =~= number_text(n as int));
        }
        r
    }
}

/// Shortens a text to a display width, appending an ellipsis when it was
/// cut.
pub fn truncate(s: &str, max_len: usize) -> (r: String)
    requires
        max_len >= 3,
    ensures
        s@.len() <= max_len ==> r@ == s@,
        s@.len() > max_len ==> r@ == s@.take(max_len - 3) + "..."@,
{
    let n = s.unicode_len();
    if n > max_len {
        let mut out = s.substring_char(0, max_len - 3).to_owned();
        out.append("...");
        proof {
            assert(out@ =~= s@.take(max_len - 3) + "..."@);
        }
        out
    } else {
        s.to_owned()
    }
}

/// What appending one labelled count yields: nothing for an absent or
/// non-positive count; otherwise a newline-separated `label: **n**` line.
pub open spec fn append_value_spec(s: Seq<char>, label: Seq<char>, v: Option<i64>) -> Seq<char> {
    match v {
        Some(x) => if x > 0 {
            (if s.len() == 0 {
                s
            } else {
                s + seq!['\n']
            }) + label + ": **"@ + number_text(x as int) + "**"@
        } else {
            s
        },
        None => s,
    }
}

/// Appends one labelled count to a report block, if it is positive.
pub fn append_value(s: &mut String, label: &str, value: Option<i64>)
    ensures
        final(s)@ == append_value_spec(old(s)@, label@, value),
{
    if let Some(v) = value {
        if v > 0 {
            if s.unicode_len() > 0 {
                s.append("\n");
            }
            s.append(label);
            s.append(": **");
            s.append(format_number(v).as_str());
            s.append("**");
            proof {
                reveal_strlit("\n");
                assert(s@ =~= append_value_spec(old(s)@, label@, Some(v)));
            }
        }
    }
}

/// A spy report joined with the display names its coordinates resolve
/// to, as the bot presents it.
pub struct BotSpyReport {
    pub created_at: Option<i64>,
    pub galaxy: i64,
    pub system: i64,
    pub planet: i64,
    pub player_name: Option<String>,
    pub alliance_name: Option<String>,
    pub reporter_name: Option<String>,
    pub resources: CountMap,
    pub buildings: CountMap,
    pub fleet: CountMap,
    pub defense: CountMap,
}

/// The translated label of one game id, with no parameters.
pub open spec fn label_of(lang: Seq<char>, key: Seq<char>) -> Seq<char> {
    t_spec(
        (if valid_language(lang) {
            lang
        } else {
            "en"@
        }),
        key,
        Seq::<(Seq<char>, Seq<char>)>::empty(),
    )
}

/// One labelled count appended from a mapping.
pub open spec fn block_step(s: Seq<char>, lang: Seq<char>, key: Seq<char>, m: Seq<crate::models::CountEntry>, id: u64) -> Seq<char> {
    append_value_spec(s, label_of(lang, key), count_of(m, id))
}

/// The resources block of a spy report: the four resource lines, or the
/// no-data text when all are absent.
pub open spec fn resources_block(lang: Seq<char>, m: Seq<crate::models::CountEntry>) -> Seq<char> {
    let s0 = Seq::<char>::empty();
    let s1 = block_step(s0, lang, "gameIds.resources.901"@, m, 901);
    let s2 = block_step(s1, lang, "gameIds.resources.902"@, m, 902);
    let s3 = block_step(s2, lang, "gameIds.resources.903"@, m, 903);
    let s4 = block_step(s3, lang, "gameIds.resources.904"@, m, 904);
    if s4.len() == 0 {
        label_of(lang, "bot.spy.noData"@)
    } else {
        s4
    }
}

/// Formats the resources block of a spy report.
pub fn format_resources(r: &BotSpyReport, lang: &str) -> (out: String)
    ensures
        out@ == resources_block(lang@, r.resources@),
{
    let mut s = String::new();
    append_value(&mut s, t(lang, "gameIds.resources.901", &[]).as_str(), count_map_get(&r.resources, 901));
    append_value(&mut s, t(lang, "gameIds.resources.902", &[]).as_str(), count_map_get(&r.resources, 902));
    append_value(&mut s, t(lang, "gameIds.resources.903", &[]).as_str(), count_map_get(&r.resources, 903));
    append_value(&mut s, t(lang, "gameIds.resources.904", &[]).as_str(), count_map_get(&r.resources, 904));
    if s.unicode_len() == 0 {
        t(lang, "bot.spy.noData", &[])
    } else {
        s
    }
}

/// The buildings block of a spy report: the six tracked buildings.
pub open spec fn buildings_block(lang: Seq<char>, m: Seq<crate::models::CountEntry>) -> Seq<char> {
    let s1 = block_step(Seq::<char>::empty(), lang, "gameIds.buildings.1"@, m, 1);
    let s2 = block_step(s1, lang, "gameIds.buildings.2"@, m, 2);
    let s3 = block_step(s2, lang, "gameIds.buildings.3"@, m, 3);
    let s4 = block_step(s3, lang, "gameIds.buildings.4"@, m, 4);
    let s5 = block_step(s4, lang, "gameIds.buildings.14"@, m, 14);
    let s6 = block_step(s5, lang, "gameIds.buildings.15"@, m, 15);
    if s6.len() == 0 {
        label_of(lang, "bot.spy.noData"@)
    } else {
        s6
    }
}

/// Formats the buildings block of a spy report.
pub fn format_buildings(r: &BotSpyReport, lang: &str) -> (out: String)
    ensures
        out@ == buildings_block(lang@, r.buildings@),
{
    let mut s = String::new();
    append_value(&mut s, t(lang, "gameIds.buildings.1", &[]).as_str(), count_map_get(&r.buildings, 1));
    append_value(&mut s, t(lang, "gameIds.buildings.2", &[]).as_str(), count_map_get(&r.buildings, 2));
    append_value(&mut s, t(lang, "gameIds.buildings.3", &[]).as_str(), count_map_get(&r.buildings, 3));
    append_value(&mut s, t(lang, "gameIds.buildings.4", &[]).as_str(), count_map_get(&r.buildings, 4));
    append_value(&mut s, t(lang, "gameIds.buildings.14", &[]).as_str(), count_map_get(&r.buildings, 14));
    append_value(&mut s, t(lang, "gameIds.buildings.15", &[]).as_str(), count_map_get(&r.buildings, 15));
    if s.unicode_len() == 0 {
        t(lang, "bot.spy.noData", &[])
    } else {
        s
    }
}

/// The defense block of a spy report: the ten tracked defenses, or the
/// no-defense text.
pub open spec fn defense_block(lang: Seq<char>, m: Seq<crate::models::CountEntry>) -> Seq<char> {
    let s1 = block_step(Seq::<char>::empty(), lang, "gameIds.defense.401"@, m, 401);
    let s2 = block_step(s1, lang, "gameIds.defense.402"@, m, 402);
    let s3 = block_step(s2, lang, "gameIds.defense.403"@, m, 403);
    let s4 = block_step(s3, lang, "gameIds.defense.404"@, m, 404);
    let s5 = block_step(s4, lang, "gameIds.defense.405"@, m, 405);
    let s6 = block_step(s5, lang, "gameIds.defense.406"@, m, 406);
    let s7 = block_step(s6, lang, "gameIds.defense.407"@, m, 407);
    let s8 = block_step(s7, lang, "gameIds.defense.408"@, m, 408);
    let s9 = block_step(s8, lang, "gameIds.defense.502"@, m, 502);
    let s10 = block_step(s9, lang, "gameIds.defense.503"@, m, 503);
    if s10.len() == 0 {
        label_of(lang, "bot.spy.noDefense"@)
    } else {
        s10
    }
}

/// Formats the defense block of a spy report.
pub fn format_defense(r: &BotSpyReport, lang: &str) -> (out: String)
    ensures
        out@ == defense_block(lang@, r.defense@),
{
    let mut s = String::new();
    append_value(&mut s, t(lang, "gameIds.defense.401", &[]).as_str(), count_map_get(&r.defense, 401));
    append_value(&mut s, t(lang, "gameIds.defense.402", &[]).as_str(), count_map_get(&r.defense, 402));
    append_value(&mut s, t(lang, "gameIds.defense.403", &[]).as_str(), count_map_get(&r.defense, 403));
    append_value(&mut s, t(lang, "gameIds.defense.404", &[]).as_str(), count_map_get(&r.defense, 404));
    append_value(&mut s, t(lang, "gameIds.defense.405", &[]).as_str(), count_map_get(&r.defense, 405));
    append_value(&mut s, t(lang, "gameIds.defense.406", &[]).as_str(), count_map_get(&r.defense, 406));
    append_value(&mut s, t(lang, "gameIds.defense.407", &[]).as_str(), count_map_get(&r.defense, 407));
    append_value(&mut s, t(lang, "gameIds.defense.408", &[]).as_str(), count_map_get(&r.defense, 408));
    append_value(&mut s, t(lang, "gameIds.defense.502", &[]).as_str(), count_map_get(&r.defense, 502));
    append_value(&mut s, t(lang, "gameIds.defense.503", &[]).as_str(), count_map_get(&r.defense, 503));
    if s.unicode_len() == 0 {
        t(lang, "bot.spy.noDefense", &[])
    } else {
        s
    }
}

/// The fleet block of a spy report: the fourteen tracked ships, or the
/// no-fleet text.
pub open spec fn fleet_block(lang: Seq<char>, m: Seq<crate::models::CountEntry>) -> Seq<char> {
    let s1 = block_step(Seq::<char>::empty(), lang, "gameIds.ships.202"@, m, 202);
    let s2 = block_step(s1, lang, "gameIds.ships.203"@, m, 203);
    let s3 = block_step(s2, lang, "gameIds.ships.204"@, m, 204);
    let s4 = block_step(s3, lang, "gameIds.ships.205"@, m, 205);
    let s5 = block_step(s4, lang, "gameIds.ships.206"@, m, 206);
    let s6 = block_step(s5, lang, "gameIds.ships.207"@, m, 207);
    let s7 = block_step(s6, lang, "gameIds.ships.208"@, m, 208);
    let s8 = block_step(s7, lang, "gameIds.ships.209"@, m, 209);
    let s9 = block_step(s8, lang, "gameIds.ships.210"@, m, 210);
    let s10 = block_step(s9, lang, "gameIds.ships.211"@, m, 211);
    let s11 = block_step(s10, lang, "gameIds.ships.213"@, m, 213);
    let s12 = block_step(s11, lang, "gameIds.ships.214"@, m, 214);
    let s13 = block_step(s12, lang, "gameIds.ships.215"@, m, 215);
    let s14 = block_step(s13, lang, "gameIds.ships.212"@, m, 212);
    if s14.len() == 0 {
        label_of(lang, "bot.spy.noFleet"@)
    } else {
        s14
    }
}

/// Formats the fleet block of a spy report; the solar satellite comes
/// last, as the display orders it.
pub fn format_fleet(r: &BotSpyReport, lang: &str) -> (out: String)
    ensures
        out@ == fleet_block(lang@, r.fleet@),
{
    let mut s = String::new();
    append_value(&mut s, t(lang, "gameIds.ships.202", &[]).as_str(), count_map_get(&r.fleet, 202));
    append_value(&mut s, t(lang, "gameIds.ships.203", &[]).as_str(), count_map_get(&r.fleet, 203));
    append_value(&mut s, t(lang, "gameIds.ships.204", &[]).as_str(), count_map_get(&r.fleet, 204));
    append_value(&mut s, t(lang, "gameIds.ships.205", &[]).as_str(), count_map_get(&r.fleet, 205));
    append_value(&mut s, t(lang, "gameIds.ships.206", &[]).as_str(), count_map_get(&r.fleet, 206));
    append_value(&mut s, t(lang, "gameIds.ships.207", &[]).as_str(), count_map_get(&r.fleet, 207));
    append_value(&mut s, t(lang, "gameIds.ships.208", &[]).as_str(), count_map_get(&r.fleet, 208));
    append_value(&mut s, t(lang, "gameIds.ships.209", &[]).as_str(), count_map_get(&r.fleet, 209));
    append_value(&mut s, t(lang, "gameIds.ships.210", &[]).as_str(), count_map_get(&r.fleet, 210));
    append_value(&mut s, t(lang, "gameIds.ships.211", &[]).as_str(), count_map_get(&r.fleet, 211));
    append_value(&mut s, t(lang, "gameIds.ships.213", &[]).as_str(), count_map_get(&r.fleet, 213));
    append_value(&mut s, t(lang, "gameIds.ships.214", &[]).as_str(), count_map_get(&r.fleet, 214));
    append_value(&mut s, t(lang, "gameIds.ships.215", &[]).as_str(), count_map_get(&r.fleet, 215));
    append_value(&mut s, t(lang, "gameIds.ships.212", &[]).as_str(), count_map_get(&r.fleet, 212));
    if s.unicode_len() == 0 {
        t(lang, "bot.spy.noFleet", &[])
    } else {
        s
    }
}

} // verus!
