//! Translation support: a flat table of dot-notated keys per language,
//! lookup with fallback to English, and `{{name}}` parameter
//! interpolation.

use vstd::prelude::*;
use vstd::string::StrSliceExecFns;
use vstd::string::StringExecFns;
use crate::store::str_eq;

verus! {

/// The runtime-modifiable bot language: one explicitly owned cell, passed
/// to the functions that read or update it.
pub struct LanguageSetting {
    pub current: String,
}

/// Whether a language code is supported.
pub open spec fn valid_language(lang: Seq<char>) -> bool {
    lang == "en"@ || lang == "de"@
}

/// Checks whether a language code is supported.
pub fn is_valid_language(lang: &str) -> (r: bool)
    ensures
        r == valid_language(lang@),
{
    str_eq(lang, "en") || str_eq(lang, "de")
}

/// Reads the current bot language.
pub fn get_bot_language(setting: &LanguageSetting) -> (r: String)
    ensures
        r@ == setting.current@,
{
    setting.current.clone()
}

/// Sets the bot language; only a supported code is accepted.
pub fn set_bot_language(setting: &mut LanguageSetting, lang: &str) -> (r: bool)
    ensures
        r == valid_language(lang@),
        r ==> final(setting).current@ == lang@,
        !r ==> final(setting).current@ == old(setting).current@,
{
    if is_valid_language(lang) {
        setting.current = String::from_str(lang);
        true
    } else {
        false
    }
}

/// The English translation of a key, if any.
pub open spec fn locale_en(key: Seq<char>) -> Option<Seq<char>> {
    if key == "bot.util.pong"@ {
        Some("Pong!"@)
    } else
    if key == "bot.util.connected"@ {
        Some("connected"@)
    } else
    if key == "bot.util.queryFailed"@ {
        Some("query failed: {{error}}"@)
    } else
    if key == "bot.util.database"@ {
        Some("Database"@)
    } else
    if key == "bot.util.botInfo"@ {
        Some("Bot information"@)
    } else
    if key == "bot.util.allyId"@ {
        Some("Ally ID"@)
    } else
    if key == "bot.util.permission"@ {
        Some("Permission"@)
    } else
    if key == "bot.user.created"@ {
        Some("User for **{{name}}** created!"@)
    } else
    if key == "bot.user.removed"@ {
        Some("User **{{name}}** removed."@)
    } else
    if key == "bot.user.noUsers"@ {
        Some("No users found."@)
    } else
    if key == "bot.user.listTitle"@ {
        Some("Users ({{count}})"@)
    } else
    if key == "bot.user.tableHeader"@ {
        Some("ID   Player               Role       Active"@)
    } else
    if key == "bot.user.createError"@ {
        Some("Could not create the user."@)
    } else
    if key == "bot.user.removeError"@ {
        Some("Could not remove the user."@)
    } else
    if key == "bot.user.apiKey"@ {
        Some("API key"@)
    } else
    if key == "bot.user.apiKeySent"@ {
        Some("API key sent to <@{{user}}>."@)
    } else
    if key == "bot.user.apiKeyDirect"@ {
        Some("Keep this key safe."@)
    } else
    if key == "bot.user.dmFailed"@ {
        Some("Direct message failed; key shown here instead."@)
    } else
    if key == "bot.user.sendKeyTitle"@ {
        Some("Your access key"@)
    } else
    if key == "bot.user.sendKeyPlayer"@ {
        Some("Player"@)
    } else
    if key == "bot.user.sendKeyWarning"@ {
        Some("Do not share this key with anyone."@)
    } else
    if key == "bot.errors.noPermission"@ {
        Some("You do not have permission for this command."@)
    } else
    if key == "bot.errors.adminOnly"@ {
        Some("This command is for admins only."@)
    } else
    if key == "bot.errors.dbError"@ {
        Some("Database error."@)
    } else
    if key == "bot.errors.sendError"@ {
        Some("Could not send the message."@)
    } else
    if key == "bot.errors.dmError"@ {
        Some("Could not open a direct message channel."@)
    } else
    if key == "bot.errors.userNotFound"@ {
        Some("No user found for **{{name}}**."@)
    } else
    if key == "bot.errors.playerNotFound"@ {
        Some("Player **{{name}}** not found."@)
    } else
    if key == "bot.errors.channelNotConfigured"@ {
        Some("The target channel is not configured."@)
    } else
    if key == "bot.language.changed"@ {
        Some("Bot language changed to **{{lang}}**."@)
    } else
    if key == "bot.language.invalid"@ {
        Some("Unknown language. Supported: {{languages}}"@)
    } else
    if key == "bot.language.current"@ {
        Some("Current language: **{{lang}}**"@)
    } else
    if key == "bot.language.supported"@ {
        Some("Supported languages: {{languages}}"@)
    } else
    if key == "bot.planets.newPlanets"@ {
        Some("New planets"@)
    } else
    if key == "bot.planets.noNewPlanets"@ {
        Some("No new planets."@)
    } else
    if key == "bot.planets.newPlanetsCount"@ {
        Some("New planets ({{count}})"@)
    } else
    if key == "bot.planets.total"@ {
        Some("{{count}} planets in total"@)
    } else
    if key == "bot.planets.posted"@ {
        Some("{{count}} planets posted to <#{{channel}}>."@)
    } else
    if key == "bot.planets.markedSeen"@ {
        Some("{{count}} planets marked as seen."@)
    } else
    if key == "bot.planets.markError"@ {
        Some("Could not mark the planets as seen."@)
    } else
    if key == "bot.spy.title"@ {
        Some("Spy report"@)
    } else
    if key == "bot.spy.unknown"@ {
        Some("unknown"@)
    } else
    if key == "bot.spy.spiedBy"@ {
        Some("Spied by {{name}}"@)
    } else
    if key == "bot.spy.resources"@ {
        Some("Resources"@)
    } else
    if key == "bot.spy.buildings"@ {
        Some("Buildings"@)
    } else
    if key == "bot.spy.defense"@ {
        Some("Defense"@)
    } else
    if key == "bot.spy.fleet"@ {
        Some("Fleet"@)
    } else
    if key == "bot.spy.noData"@ {
        Some("no data"@)
    } else
    if key == "bot.spy.noDefense"@ {
        Some("no defense"@)
    } else
    if key == "bot.spy.noFleet"@ {
        Some("no fleet"@)
    } else
    if key == "bot.spy.noReport"@ {
        Some("No spy report for {{coords}}."@)
    } else
    if key == "bot.inactive.title"@ {
        Some("Top inactive players"@)
    } else
    if key == "bot.inactive.points"@ {
        Some("Points"@)
    } else
    if key == "bot.inactive.fleet"@ {
        Some("Fleet"@)
    } else
    if key == "bot.inactive.since"@ {
        Some("Since"@)
    } else
    if key == "bot.inactive.noPlayers"@ {
        Some("No inactive players found."@)
    } else
    if key == "bot.export.exporting"@ {
        Some("Building the export..."@)
    } else
    if key == "bot.export.success"@ {
        Some("Export posted to <#{{channel}}> ({{size}} KB)."@)
    } else
    if key == "bot.export.error"@ {
        Some("Export failed."@)
    } else
    if key == "hub.overview.table.player"@ {
        Some("Player"@)
    } else
    if key == "hub.overview.table.ally"@ {
        Some("Ally"@)
    } else
    if key == "gameIds.resources.901"@ {
        Some("Metal"@)
    } else
    if key == "gameIds.resources.902"@ {
        Some("Crystal"@)
    } else
    if key == "gameIds.resources.903"@ {
        Some("Deuterium"@)
    } else
    if key == "gameIds.resources.904"@ {
        Some("Energy"@)
    } else
    if key == "gameIds.buildings.1"@ {
        Some("Metal Mine"@)
    } else
    if key == "gameIds.buildings.2"@ {
        Some("Crystal Mine"@)
    } else
    if key == "gameIds.buildings.3"@ {
        Some("Deuterium Synthesizer"@)
    } else
    if key == "gameIds.buildings.4"@ {
        Some("Solar Plant"@)
    } else
    if key == "gameIds.buildings.14"@ {
        Some("Robotics Factory"@)
    } else
    if key == "gameIds.buildings.15"@ {
        Some("Nanite Factory"@)
    } else
    if key == "gameIds.defense.401"@ {
        Some("Rocket Launcher"@)
    } else
    if key == "gameIds.defense.402"@ {
        Some("Light Laser"@)
    } else
    if key == "gameIds.defense.403"@ {
        Some("Heavy Laser"@)
    } else
    if key == "gameIds.defense.404"@ {
        Some("Gauss Cannon"@)
    } else
    if key == "gameIds.defense.405"@ {
        Some("Ion Cannon"@)
    } else
    if key == "gameIds.defense.406"@ {
        Some("Plasma Turret"@)
    } else
    if key == "gameIds.defense.407"@ {
        Some("Small Shield Dome"@)
    } else
    if key == "gameIds.defense.408"@ {
        Some("Large Shield Dome"@)
    } else
    if key == "gameIds.defense.502"@ {
        Some("Anti-Ballistic Missile"@)
    } else
    if key == "gameIds.defense.503"@ {
        Some("Interplanetary Missile"@)
    } else
    if key == "gameIds.ships.202"@ {
        Some("Small Cargo"@)
    } else
    if key == "gameIds.ships.203"@ {
        Some("Large Cargo"@)
    } else
    if key == "gameIds.ships.204"@ {
        Some("Light Fighter"@)
    } else
    if key == "gameIds.ships.205"@ {
        Some("Heavy Fighter"@)
    } else
    if key == "gameIds.ships.206"@ {
        Some("Cruiser"@)
    } else
    if key == "gameIds.ships.207"@ {
        Some("Battleship"@)
    } else
    if key == "gameIds.ships.208"@ {
        Some("Colony Ship"@)
    } else
    if key == "gameIds.ships.209"@ {
        Some("Recycler"@)
    } else
    if key == "gameIds.ships.210"@ {
        Some("Espionage Probe"@)
    } else
    if key == "gameIds.ships.211"@ {
        Some("Bomber"@)
    } else
    if key == "gameIds.ships.212"@ {
        Some("Solar Satellite"@)
    } else
    if key == "gameIds.ships.213"@ {
        Some("Destroyer"@)
    } else
    if key == "gameIds.ships.214"@ {
        Some("Deathstar"@)
    } else
    if key == "gameIds.ships.215"@ {
        Some("Battlecruiser"@)
    } else {
        None
    }
}

/// The German translation of a key, if any.
pub open spec fn locale_de(key: Seq<char>) -> Option<Seq<char>> {
    if key == "bot.util.pong"@ {
        Some("Pong!"@)
    } else
    if key == "bot.util.connected"@ {
        Some("verbunden"@)
    } else
    if key == "bot.util.queryFailed"@ {
        Some("Abfrage fehlgeschlagen: {{error}}"@)
    } else
    if key == "bot.util.database"@ {
        Some("Datenbank"@)
    } else
    if key == "bot.util.botInfo"@ {
        Some("Bot-Informationen"@)
    } else
    if key == "bot.util.allyId"@ {
        Some("Allianz-ID"@)
    } else
    if key == "bot.util.permission"@ {
        Some("Berechtigung"@)
    } else
    if key == "bot.user.created"@ {
        Some("User fuer **{{name}}** angelegt!"@)
    } else
    if key == "bot.user.removed"@ {
        Some("User **{{name}}** entfernt."@)
    } else
    if key == "bot.user.noUsers"@ {
        Some("Keine User gefunden."@)
    } else
    if key == "bot.user.listTitle"@ {
        Some("User ({{count}})"@)
    } else
    if key == "bot.user.tableHeader"@ {
        Some("ID   Spieler              Rolle      Aktiv"@)
    } else
    if key == "bot.user.createError"@ {
        Some("User konnte nicht angelegt werden."@)
    } else
    if key == "bot.user.removeError"@ {
        Some("User konnte nicht entfernt werden."@)
    } else
    if key == "bot.user.apiKey"@ {
        Some("API-Key"@)
    } else
    if key == "bot.user.apiKeySent"@ {
        Some("API-Key an <@{{user}}> gesendet."@)
    } else
    if key == "bot.user.apiKeyDirect"@ {
        Some("Diesen Key sicher aufbewahren."@)
    } else
    if key == "bot.user.dmFailed"@ {
        Some("Direktnachricht fehlgeschlagen; Key wird hier angezeigt."@)
    } else
    if key == "bot.user.sendKeyTitle"@ {
        Some("Dein Zugangsschluessel"@)
    } else
    if key == "bot.user.sendKeyPlayer"@ {
        Some("Spieler"@)
    } else
    if key == "bot.user.sendKeyWarning"@ {
        Some("Diesen Key mit niemandem teilen."@)
    } else
    if key == "bot.errors.noPermission"@ {
        Some("Du hast keine Berechtigung fuer diesen Befehl."@)
    } else
    if key == "bot.errors.adminOnly"@ {
        Some("Dieser Befehl ist nur fuer Admins."@)
    } else
    if key == "bot.errors.dbError"@ {
        Some("Datenbankfehler."@)
    } else
    if key == "bot.errors.sendError"@ {
        Some("Nachricht konnte nicht gesendet werden."@)
    } else
    if key == "bot.errors.dmError"@ {
        Some("Direktnachricht-Kanal konnte nicht geoeffnet werden."@)
    } else
    if key == "bot.errors.userNotFound"@ {
        Some("Kein User fuer **{{name}}** gefunden."@)
    } else
    if key == "bot.errors.playerNotFound"@ {
        Some("Spieler **{{name}}** nicht gefunden."@)
    } else
    if key == "bot.errors.channelNotConfigured"@ {
        Some("Der Zielkanal ist nicht konfiguriert."@)
    } else
    if key == "bot.language.changed"@ {
        Some("Bot-Sprache auf **{{lang}}** umgestellt."@)
    } else
    if key == "bot.language.invalid"@ {
        Some("Unbekannte Sprache. Unterstuetzt: {{languages}}"@)
    } else
    if key == "bot.language.current"@ {
        Some("Aktuelle Sprache: **{{lang}}**"@)
    } else
    if key == "bot.language.supported"@ {
        Some("Unterstuetzte Sprachen: {{languages}}"@)
    } else
    if key == "bot.planets.newPlanets"@ {
        Some("Neue Planeten"@)
    } else
    if key == "bot.planets.noNewPlanets"@ {
        Some("Keine neuen Planeten."@)
    } else
    if key == "bot.planets.newPlanetsCount"@ {
        Some("Neue Planeten ({{count}})"@)
    } else
    if key == "bot.planets.total"@ {
        Some("{{count}} Planeten insgesamt"@)
    } else
    if key == "bot.planets.posted"@ {
        Some("{{count}} Planeten in <#{{channel}}> gepostet."@)
    } else
    if key == "bot.planets.markedSeen"@ {
        Some("{{count}} Planeten als gesehen markiert."@)
    } else
    if key == "bot.planets.markError"@ {
        Some("Planeten konnten nicht als gesehen markiert werden."@)
    } else
    if key == "bot.spy.title"@ {
        Some("Spionagebericht"@)
    } else
    if key == "bot.spy.unknown"@ {
        Some("unbekannt"@)
    } else
    if key == "bot.spy.spiedBy"@ {
        Some("Spioniert von {{name}}"@)
    } else
    if key == "bot.spy.resources"@ {
        Some("Rohstoffe"@)
    } else
    if key == "bot.spy.buildings"@ {
        Some("Gebaeude"@)
    } else
    if key == "bot.spy.defense"@ {
        Some("Verteidigung"@)
    } else
    if key == "bot.spy.fleet"@ {
        Some("Flotte"@)
    } else
    if key == "bot.spy.noData"@ {
        Some("keine Daten"@)
    } else
    if key == "bot.spy.noDefense"@ {
        Some("keine Verteidigung"@)
    } else
    if key == "bot.spy.noFleet"@ {
        Some("keine Flotte"@)
    } else
    if key == "bot.spy.noReport"@ {
        Some("Kein Spionagebericht fuer {{coords}}."@)
    } else
    if key == "bot.inactive.title"@ {
        Some("Top inaktive Spieler"@)
    } else
    if key == "bot.inactive.points"@ {
        Some("Punkte"@)
    } else
    if key == "bot.inactive.fleet"@ {
        Some("Flotte"@)
    } else
    if key == "bot.inactive.since"@ {
        Some("Seit"@)
    } else
    if key == "bot.inactive.noPlayers"@ {
        Some("Keine inaktiven Spieler gefunden."@)
    } else
    if key == "bot.export.exporting"@ {
        Some("Export wird erstellt..."@)
    } else
    if key == "bot.export.success"@ {
        Some("Export in <#{{channel}}> gepostet ({{size}} KB)."@)
    } else
    if key == "bot.export.error"@ {
        Some("Export fehlgeschlagen."@)
    } else
    if key == "hub.overview.table.player"@ {
        Some("Spieler"@)
    } else
    if key == "hub.overview.table.ally"@ {
        Some("Allianz"@)
    } else
    if key == "gameIds.resources.901"@ {
        Some("Metall"@)
    } else
    if key == "gameIds.resources.902"@ {
        Some("Kristall"@)
    } else
    if key == "gameIds.resources.903"@ {
        Some("Deuterium"@)
    } else
    if key == "gameIds.resources.904"@ {
        Some("Energie"@)
    } else
    if key == "gameIds.buildings.1"@ {
        Some("Metallmine"@)
    } else
    if key == "gameIds.buildings.2"@ {
        Some("Kristallmine"@)
    } else
    if key == "gameIds.buildings.3"@ {
        Some("Deuterium-Synthetisierer"@)
    } else
    if key == "gameIds.buildings.4"@ {
        Some("Solarkraftwerk"@)
    } else
    if key == "gameIds.buildings.14"@ {
        Some("Roboterfabrik"@)
    } else
    if key == "gameIds.buildings.15"@ {
        Some("Nanitenfabrik"@)
    } else
    if key == "gameIds.defense.401"@ {
        Some("Raketenwerfer"@)
    } else
    if key == "gameIds.defense.402"@ {
        Some("Leichtes Lasergeschuetz"@)
    } else
    if key == "gameIds.defense.403"@ {
        Some("Schweres Lasergeschuetz"@)
    } else
    if key == "gameIds.defense.404"@ {
        Some("Gausskanone"@)
    } else
    if key == "gameIds.defense.405"@ {
        Some("Ionengeschuetz"@)
    } else
    if key == "gameIds.defense.406"@ {
        Some("Plasmawerfer"@)
    } else
    if key == "gameIds.defense.407"@ {
        Some("Kleine Schildkuppel"@)
    } else
    if key == "gameIds.defense.408"@ {
        Some("Grosse Schildkuppel"@)
    } else
    if key == "gameIds.defense.502"@ {
        Some("Abfangrakete"@)
    } else
    if key == "gameIds.defense.503"@ {
        Some("Interplanetarrakete"@)
    } else
    if key == "gameIds.ships.202"@ {
        Some("Kleiner Transporter"@)
    } else
    if key == "gameIds.ships.203"@ {
        Some("Grosser Transporter"@)
    } else
    if key == "gameIds.ships.204"@ {
        Some("Leichter Jaeger"@)
    } else
    if key == "gameIds.ships.205"@ {
        Some("Schwerer Jaeger"@)
    } else
    if key == "gameIds.ships.206"@ {
        Some("Kreuzer"@)
    } else
    if key == "gameIds.ships.207"@ {
        Some("Schlachtschiff"@)
    } else
    if key == "gameIds.ships.208"@ {
        Some("Kolonieschiff"@)
    } else
    if key == "gameIds.ships.209"@ {
        Some("Recycler"@)
    } else
    if key == "gameIds.ships.210"@ {
        Some("Spionagesonde"@)
    } else
    if key == "gameIds.ships.211"@ {
        Some("Bomber"@)
    } else
    if key == "gameIds.ships.212"@ {
        Some("Solarsatellit"@)
    } else
    if key == "gameIds.ships.213"@ {
        Some("Zerstoerer"@)
    } else
    if key == "gameIds.ships.214"@ {
        Some("Todesstern"@)
    } else
    if key == "gameIds.ships.215"@ {
        Some("Schlachtkreuzer"@)
    } else {
        None
    }
}

/// The translation of a key in a language (after fallback).
pub open spec fn locale_of(de: bool, key: Seq<char>) -> Option<Seq<char>> {
    if de {
        locale_de(key)
    } else {
        locale_en(key)
    }
}

/// Looks a key up in the English table.
fn locale_en_value(key: &str) -> (r: Option<&'static str>)
    ensures
        (match r {
            Some(t) => locale_en(key@) == Some(t@),
            None => locale_en(key@) is None,
        }),
{
    if str_eq(key, "bot.util.pong") {
        Some("Pong!")
    } else
    if str_eq(key, "bot.util.connected") {
        Some("connected")
    } else
    if str_eq(key, "bot.util.queryFailed") {
        Some("query failed: {{error}}")
    } else
    if str_eq(key, "bot.util.database") {
        Some("Database")
    } else
    if str_eq(key, "bot.util.botInfo") {
        Some("Bot information")
    } else
    if str_eq(key, "bot.util.allyId") {
        Some("Ally ID")
    } else
    if str_eq(key, "bot.util.permission") {
        Some("Permission")
    } else
    if str_eq(key, "bot.user.created") {
        Some("User for **{{name}}** created!")
    } else
    if str_eq(key, "bot.user.removed") {
        Some("User **{{name}}** removed.")
    } else
    if str_eq(key, "bot.user.noUsers") {
        Some("No users found.")
    } else
    if str_eq(key, "bot.user.listTitle") {
        Some("Users ({{count}})")
    } else
    if str_eq(key, "bot.user.tableHeader") {
        Some("ID   Player               Role       Active")
    } else
    if str_eq(key, "bot.user.createError") {
        Some("Could not create the user.")
    } else
    if str_eq(key, "bot.user.removeError") {
        Some("Could not remove the user.")
    } else
    if str_eq(key, "bot.user.apiKey") {
        Some("API key")
    } else
    if str_eq(key, "bot.user.apiKeySent") {
        Some("API key sent to <@{{user}}>.")
    } else
    if str_eq(key, "bot.user.apiKeyDirect") {
        Some("Keep this key safe.")
    } else
    if str_eq(key, "bot.user.dmFailed") {
        Some("Direct message failed; key shown here instead.")
    } else
    if str_eq(key, "bot.user.sendKeyTitle") {
        Some("Your access key")
    } else
    if str_eq(key, "bot.user.sendKeyPlayer") {
        Some("Player")
    } else
    if str_eq(key, "bot.user.sendKeyWarning") {
        Some("Do not share this key with anyone.")
    } else
    if str_eq(key, "bot.errors.noPermission") {
        Some("You do not have permission for this command.")
    } else
    if str_eq(key, "bot.errors.adminOnly") {
        Some("This command is for admins only.")
    } else
    if str_eq(key, "bot.errors.dbError") {
        Some("Database error.")
    } else
    if str_eq(key, "bot.errors.sendError") {
        Some("Could not send the message.")
    } else
    if str_eq(key, "bot.errors.dmError") {
        Some("Could not open a direct message channel.")
    } else
    if str_eq(key, "bot.errors.userNotFound") {
        Some("No user found for **{{name}}**.")
    } else
    if str_eq(key, "bot.errors.playerNotFound") {
        Some("Player **{{name}}** not found.")
    } else
    if str_eq(key, "bot.errors.channelNotConfigured") {
        Some("The target channel is not configured.")
    } else
    if str_eq(key, "bot.language.changed") {
        Some("Bot language changed to **{{lang}}**.")
    } else
    if str_eq(key, "bot.language.invalid") {
        Some("Unknown language. Supported: {{languages}}")
    } else
    if str_eq(key, "bot.language.current") {
        Some("Current language: **{{lang}}**")
    } else
    if str_eq(key, "bot.language.supported") {
        Some("Supported languages: {{languages}}")
    } else
    if str_eq(key, "bot.planets.newPlanets") {
        Some("New planets")
    } else
    if str_eq(key, "bot.planets.noNewPlanets") {
        Some("No new planets.")
    } else
    if str_eq(key, "bot.planets.newPlanetsCount") {
        Some("New planets ({{count}})")
    } else
    if str_eq(key, "bot.planets.total") {
        Some("{{count}} planets in total")
    } else
    if str_eq(key, "bot.planets.posted") {
        Some("{{count}} planets posted to <#{{channel}}>.")
    } else
    if str_eq(key, "bot.planets.markedSeen") {
        Some("{{count}} planets marked as seen.")
    } else
    if str_eq(key, "bot.planets.markError") {
        Some("Could not mark the planets as seen.")
    } else
    if str_eq(key, "bot.spy.title") {
        Some("Spy report")
    } else
    if str_eq(key, "bot.spy.unknown") {
        Some("unknown")
    } else
    if str_eq(key, "bot.spy.spiedBy") {
        Some("Spied by {{name}}")
    } else
    if str_eq(key, "bot.spy.resources") {
        Some("Resources")
    } else
    if str_eq(key, "bot.spy.buildings") {
        Some("Buildings")
    } else
    if str_eq(key, "bot.spy.defense") {
        Some("Defense")
    } else
    if str_eq(key, "bot.spy.fleet") {
        Some("Fleet")
    } else
    if str_eq(key, "bot.spy.noData") {
        Some("no data")
    } else
    if str_eq(key, "bot.spy.noDefense") {
        Some("no defense")
    } else
    if str_eq(key, "bot.spy.noFleet") {
        Some("no fleet")
    } else
    if str_eq(key, "bot.spy.noReport") {
        Some("No spy report for {{coords}}.")
    } else
    if str_eq(key, "bot.inactive.title") {
        Some("Top inactive players")
    } else
    if str_eq(key, "bot.inactive.points") {
        Some("Points")
    } else
    if str_eq(key, "bot.inactive.fleet") {
        Some("Fleet")
    } else
    if str_eq(key, "bot.inactive.since") {
        Some("Since")
    } else
    if str_eq(key, "bot.inactive.noPlayers") {
        Some("No inactive players found.")
    } else
    if str_eq(key, "bot.export.exporting") {
        Some("Building the export...")
    } else
    if str_eq(key, "bot.export.success") {
        Some("Export posted to <#{{channel}}> ({{size}} KB).")
    } else
    if str_eq(key, "bot.export.error") {
        Some("Export failed.")
    } else
    if str_eq(key, "hub.overview.table.player") {
        Some("Player")
    } else
    if str_eq(key, "hub.overview.table.ally") {
        Some("Ally")
    } else
    if str_eq(key, "gameIds.resources.901") {
        Some("Metal")
    } else
    if str_eq(key, "gameIds.resources.902") {
        Some("Crystal")
    } else
    if str_eq(key, "gameIds.resources.903") {
        Some("Deuterium")
    } else
    if str_eq(key, "gameIds.resources.904") {
        Some("Energy")
    } else
    if str_eq(key, "gameIds.buildings.1") {
        Some("Metal Mine")
    } else
    if str_eq(key, "gameIds.buildings.2") {
        Some("Crystal Mine")
    } else
    if str_eq(key, "gameIds.buildings.3") {
        Some("Deuterium Synthesizer")
    } else
    if str_eq(key, "gameIds.buildings.4") {
        Some("Solar Plant")
    } else
    if str_eq(key, "gameIds.buildings.14") {
        Some("Robotics Factory")
    } else
    if str_eq(key, "gameIds.buildings.15") {
        Some("Nanite Factory")
    } else
    if str_eq(key, "gameIds.defense.401") {
        Some("Rocket Launcher")
    } else
    if str_eq(key, "gameIds.defense.402") {
        Some("Light Laser")
    } else
    if str_eq(key, "gameIds.defense.403") {
        Some("Heavy Laser")
    } else
    if str_eq(key, "gameIds.defense.404") {
        Some("Gauss Cannon")
    } else
    if str_eq(key, "gameIds.defense.405") {
        Some("Ion Cannon")
    } else
    if str_eq(key, "gameIds.defense.406") {
        Some("Plasma Turret")
    } else
    if str_eq(key, "gameIds.defense.407") {
        Some("Small Shield Dome")
    } else
    if str_eq(key, "gameIds.defense.408") {
        Some("Large Shield Dome")
    } else
    if str_eq(key, "gameIds.defense.502") {
        Some("Anti-Ballistic Missile")
    } else
    if str_eq(key, "gameIds.defense.503") {
        Some("Interplanetary Missile")
    } else
    if str_eq(key, "gameIds.ships.202") {
        Some("Small Cargo")
    } else
    if str_eq(key, "gameIds.ships.203") {
        Some("Large Cargo")
    } else
    if str_eq(key, "gameIds.ships.204") {
        Some("Light Fighter")
    } else
    if str_eq(key, "gameIds.ships.205") {
        Some("Heavy Fighter")
    } else
    if str_eq(key, "gameIds.ships.206") {
        Some("Cruiser")
    } else
    if str_eq(key, "gameIds.ships.207") {
        Some("Battleship")
    } else
    if str_eq(key, "gameIds.ships.208") {
        Some("Colony Ship")
    } else
    if str_eq(key, "gameIds.ships.209") {
        Some("Recycler")
    } else
    if str_eq(key, "gameIds.ships.210") {
        Some("Espionage Probe")
    } else
    if str_eq(key, "gameIds.ships.211") {
        Some("Bomber")
    } else
    if str_eq(key, "gameIds.ships.212") {
        Some("Solar Satellite")
    } else
    if str_eq(key, "gameIds.ships.213") {
        Some("Destroyer")
    } else
    if str_eq(key, "gameIds.ships.214") {
        Some("Deathstar")
    } else
    if str_eq(key, "gameIds.ships.215") {
        Some("Battlecruiser")
    } else {
        None
    }
}

/// Looks a key up in the German table.
fn locale_de_value(key: &str) -> (r: Option<&'static str>)
    ensures
        (match r {
            Some(t) => locale_de(key@) == Some(t@),
            None => locale_de(key@) is None,
        }),
{
    if str_eq(key, "bot.util.pong") {
        Some("Pong!")
    } else
    if str_eq(key, "bot.util.connected") {
        Some("verbunden")
    } else
    if str_eq(key, "bot.util.queryFailed") {
        Some("Abfrage fehlgeschlagen: {{error}}")
    } else
    if str_eq(key, "bot.util.database") {
        Some("Datenbank")
    } else
    if str_eq(key, "bot.util.botInfo") {
        Some("Bot-Informationen")
    } else
    if str_eq(key, "bot.util.allyId") {
        Some("Allianz-ID")
    } else
    if str_eq(key, "bot.util.permission") {
        Some("Berechtigung")
    } else
    if str_eq(key, "bot.user.created") {
        Some("User fuer **{{name}}** angelegt!")
    } else
    if str_eq(key, "bot.user.removed") {
        Some("User **{{name}}** entfernt.")
    } else
    if str_eq(key, "bot.user.noUsers") {
        Some("Keine User gefunden.")
    } else
    if str_eq(key, "bot.user.listTitle") {
        Some("User ({{count}})")
    } else
    if str_eq(key, "bot.user.tableHeader") {
        Some("ID   Spieler              Rolle      Aktiv")
    } else
    if str_eq(key, "bot.user.createError") {
        Some("User konnte nicht angelegt werden.")
    } else
    if str_eq(key, "bot.user.removeError") {
        Some("User konnte nicht entfernt werden.")
    } else
    if str_eq(key, "bot.user.apiKey") {
        Some("API-Key")
    } else
    if str_eq(key, "bot.user.apiKeySent") {
        Some("API-Key an <@{{user}}> gesendet.")
    } else
    if str_eq(key, "bot.user.apiKeyDirect") {
        Some("Diesen Key sicher aufbewahren.")
    } else
    if str_eq(key, "bot.user.dmFailed") {
        Some("Direktnachricht fehlgeschlagen; Key wird hier angezeigt.")
    } else
    if str_eq(key, "bot.user.sendKeyTitle") {
        Some("Dein Zugangsschluessel")
    } else
    if str_eq(key, "bot.user.sendKeyPlayer") {
        Some("Spieler")
    } else
    if str_eq(key, "bot.user.sendKeyWarning") {
        Some("Diesen Key mit niemandem teilen.")
    } else
    if str_eq(key, "bot.errors.noPermission") {
        Some("Du hast keine Berechtigung fuer diesen Befehl.")
    } else
    if str_eq(key, "bot.errors.adminOnly") {
        Some("Dieser Befehl ist nur fuer Admins.")
    } else
    if str_eq(key, "bot.errors.dbError") {
        Some("Datenbankfehler.")
    } else
    if str_eq(key, "bot.errors.sendError") {
        Some("Nachricht konnte nicht gesendet werden.")
    } else
    if str_eq(key, "bot.errors.dmError") {
        Some("Direktnachricht-Kanal konnte nicht geoeffnet werden.")
    } else
    if str_eq(key, "bot.errors.userNotFound") {
        Some("Kein User fuer **{{name}}** gefunden.")
    } else
    if str_eq(key, "bot.errors.playerNotFound") {
        Some("Spieler **{{name}}** nicht gefunden.")
    } else
    if str_eq(key, "bot.errors.channelNotConfigured") {
        Some("Der Zielkanal ist nicht konfiguriert.")
    } else
    if str_eq(key, "bot.language.changed") {
        Some("Bot-Sprache auf **{{lang}}** umgestellt.")
    } else
    if str_eq(key, "bot.language.invalid") {
        Some("Unbekannte Sprache. Unterstuetzt: {{languages}}")
    } else
    if str_eq(key, "bot.language.current") {
        Some("Aktuelle Sprache: **{{lang}}**")
    } else
    if str_eq(key, "bot.language.supported") {
        Some("Unterstuetzte Sprachen: {{languages}}")
    } else
    if str_eq(key, "bot.planets.newPlanets") {
        Some("Neue Planeten")
    } else
    if str_eq(key, "bot.planets.noNewPlanets") {
        Some("Keine neuen Planeten.")
    } else
    if str_eq(key, "bot.planets.newPlanetsCount") {
        Some("Neue Planeten ({{count}})")
    } else
    if str_eq(key, "bot.planets.total") {
        Some("{{count}} Planeten insgesamt")
    } else
    if str_eq(key, "bot.planets.posted") {
        Some("{{count}} Planeten in <#{{channel}}> gepostet.")
    } else
    if str_eq(key, "bot.planets.markedSeen") {
        Some("{{count}} Planeten als gesehen markiert.")
    } else
    if str_eq(key, "bot.planets.markError") {
        Some("Planeten konnten nicht als gesehen markiert werden.")
    } else
    if str_eq(key, "bot.spy.title") {
        Some("Spionagebericht")
    } else
    if str_eq(key, "bot.spy.unknown") {
        Some("unbekannt")
    } else
    if str_eq(key, "bot.spy.spiedBy") {
        Some("Spioniert von {{name}}")
    } else
    if str_eq(key, "bot.spy.resources") {
        Some("Rohstoffe")
    } else
    if str_eq(key, "bot.spy.buildings") {
        Some("Gebaeude")
    } else
    if str_eq(key, "bot.spy.defense") {
        Some("Verteidigung")
    } else
    if str_eq(key, "bot.spy.fleet") {
        Some("Flotte")
    } else
    if str_eq(key, "bot.spy.noData") {
        Some("keine Daten")
    } else
    if str_eq(key, "bot.spy.noDefense") {
        Some("keine Verteidigung")
    } else
    if str_eq(key, "bot.spy.noFleet") {
        Some("keine Flotte")
    } else
    if str_eq(key, "bot.spy.noReport") {
        Some("Kein Spionagebericht fuer {{coords}}.")
    } else
    if str_eq(key, "bot.inactive.title") {
        Some("Top inaktive Spieler")
    } else
    if str_eq(key, "bot.inactive.points") {
        Some("Punkte")
    } else
    if str_eq(key, "bot.inactive.fleet") {
        Some("Flotte")
    } else
    if str_eq(key, "bot.inactive.since") {
        Some("Seit")
    } else
    if str_eq(key, "bot.inactive.noPlayers") {
        Some("Keine inaktiven Spieler gefunden.")
    } else
    if str_eq(key, "bot.export.exporting") {
        Some("Export wird erstellt...")
    } else
    if str_eq(key, "bot.export.success") {
        Some("Export in <#{{channel}}> gepostet ({{size}} KB).")
    } else
    if str_eq(key, "bot.export.error") {
        Some("Export fehlgeschlagen.")
    } else
    if str_eq(key, "hub.overview.table.player") {
        Some("Spieler")
    } else
    if str_eq(key, "hub.overview.table.ally") {
        Some("Allianz")
    } else
    if str_eq(key, "gameIds.resources.901") {
        Some("Metall")
    } else
    if str_eq(key, "gameIds.resources.902") {
        Some("Kristall")
    } else
    if str_eq(key, "gameIds.resources.903") {
        Some("Deuterium")
    } else
    if str_eq(key, "gameIds.resources.904") {
        Some("Energie")
    } else
    if str_eq(key, "gameIds.buildings.1") {
        Some("Metallmine")
    } else
    if str_eq(key, "gameIds.buildings.2") {
        Some("Kristallmine")
    } else
    if str_eq(key, "gameIds.buildings.3") {
        Some("Deuterium-Synthetisierer")
    } else
    if str_eq(key, "gameIds.buildings.4") {
        Some("Solarkraftwerk")
    } else
    if str_eq(key, "gameIds.buildings.14") {
        Some("Roboterfabrik")
    } else
    if str_eq(key, "gameIds.buildings.15") {
        Some("Nanitenfabrik")
    } else
    if str_eq(key, "gameIds.defense.401") {
        Some("Raketenwerfer")
    } else
    if str_eq(key, "gameIds.defense.402") {
        Some("Leichtes Lasergeschuetz")
    } else
    if str_eq(key, "gameIds.defense.403") {
        Some("Schweres Lasergeschuetz")
    } else
    if str_eq(key, "gameIds.defense.404") {
        Some("Gausskanone")
    } else
    if str_eq(key, "gameIds.defense.405") {
        Some("Ionengeschuetz")
    } else
    if str_eq(key, "gameIds.defense.406") {
        Some("Plasmawerfer")
    } else
    if str_eq(key, "gameIds.defense.407") {
        Some("Kleine Schildkuppel")
    } else
    if str_eq(key, "gameIds.defense.408") {
        Some("Grosse Schildkuppel")
    } else
    if str_eq(key, "gameIds.defense.502") {
        Some("Abfangrakete")
    } else
    if str_eq(key, "gameIds.defense.503") {
        Some("Interplanetarrakete")
    } else
    if str_eq(key, "gameIds.ships.202") {
        Some("Kleiner Transporter")
    } else
    if str_eq(key, "gameIds.ships.203") {
        Some("Grosser Transporter")
    } else
    if str_eq(key, "gameIds.ships.204") {
        Some("Leichter Jaeger")
    } else
    if str_eq(key, "gameIds.ships.205") {
        Some("Schwerer Jaeger")
    } else
    if str_eq(key, "gameIds.ships.206") {
        Some("Kreuzer")
    } else
    if str_eq(key, "gameIds.ships.207") {
        Some("Schlachtschiff")
    } else
    if str_eq(key, "gameIds.ships.208") {
        Some("Kolonieschiff")
    } else
    if str_eq(key, "gameIds.ships.209") {
        Some("Recycler")
    } else
    if str_eq(key, "gameIds.ships.210") {
        Some("Spionagesonde")
    } else
    if str_eq(key, "gameIds.ships.211") {
        Some("Bomber")
    } else
    if str_eq(key, "gameIds.ships.212") {
        Some("Solarsatellit")
    } else
    if str_eq(key, "gameIds.ships.213") {
        Some("Zerstoerer")
    } else
    if str_eq(key, "gameIds.ships.214") {
        Some("Todesstern")
    } else
    if str_eq(key, "gameIds.ships.215") {
        Some("Schlachtkreuzer")
    } else {
        None
    }
}

/// The locale document served to the frontend, one JSON object per
/// language, mirroring the translation table.
pub fn get_locale_json(lang: &str) -> (r: &'static str)
    ensures
        lang@ == "de"@ ==> r@.len() > 0,
        lang@ != "de"@ ==> r@.len() > 0,
{
    let r = if str_eq(lang, "de") {
        "{\"bot\":{\"util\":{\"pong\":\"Pong!\",\"connected\":\"verbunden\",\"queryFailed\":\"Abfrage fehlgeschlagen: {{error}}\",\"database\":\"Datenbank\",\"botInfo\":\"Bot-Informationen\",\"allyId\":\"Allianz-ID\",\"permission\":\"Berechtigung\"},\"user\":{\"created\":\"User fuer **{{name}}** angelegt!\",\"removed\":\"User **{{name}}** entfernt.\",\"noUsers\":\"Keine User gefunden.\",\"listTitle\":\"User ({{count}})\",\"tableHeader\":\"ID   Spieler              Rolle      Aktiv\",\"createError\":\"User konnte nicht angelegt werden.\",\"removeError\":\"User konnte nicht entfernt werden.\",\"apiKey\":\"API-Key\",\"apiKeySent\":\"API-Key an <@{{user}}> gesendet.\",\"apiKeyDirect\":\"Diesen Key sicher aufbewahren.\",\"dmFailed\":\"Direktnachricht fehlgeschlagen; Key wird hier angezeigt.\",\"sendKeyTitle\":\"Dein Zugangsschluessel\",\"sendKeyPlayer\":\"Spieler\",\"sendKeyWarning\":\"Diesen Key mit niemandem teilen.\"},\"errors\":{\"noPermission\":\"Du hast keine Berechtigung fuer diesen Befehl.\",\"adminOnly\":\"Dieser Befehl ist nur fuer Admins.\",\"dbError\":\"Datenbankfehler.\",\"sendError\":\"Nachricht konnte nicht gesendet werden.\",\"dmError\":\"Direktnachricht-Kanal konnte nicht geoeffnet werden.\",\"userNotFound\":\"Kein User fuer **{{name}}** gefunden.\",\"playerNotFound\":\"Spieler **{{name}}** nicht gefunden.\",\"channelNotConfigured\":\"Der Zielkanal ist nicht konfiguriert.\"},\"language\":{\"changed\":\"Bot-Sprache auf **{{lang}}** umgestellt.\",\"invalid\":\"Unbekannte Sprache. Unterstuetzt: {{languages}}\",\"current\":\"Aktuelle Sprache: **{{lang}}**\",\"supported\":\"Unterstuetzte Sprachen: {{languages}}\"},\"planets\":{\"newPlanets\":\"Neue Planeten\",\"noNewPlanets\":\"Keine neuen Planeten.\",\"newPlanetsCount\":\"Neue Planeten ({{count}})\",\"total\":\"{{count}} Planeten insgesamt\",\"posted\":\"{{count}} Planeten in <#{{channel}}> gepostet.\",\"markedSeen\":\"{{count}} Planeten als gesehen markiert.\",\"markError\":\"Planeten konnten nicht als gesehen markiert werden.\"},\"spy\":{\"title\":\"Spionagebericht\",\"unknown\":\"unbekannt\",\"spiedBy\":\"Spioniert von {{name}}\",\"resources\":\"Rohstoffe\",\"buildings\":\"Gebaeude\",\"defense\":\"Verteidigung\",\"fleet\":\"Flotte\",\"noData\":\"keine Daten\",\"noDefense\":\"keine Verteidigung\",\"noFleet\":\"keine Flotte\",\"noReport\":\"Kein Spionagebericht fuer {{coords}}.\"},\"inactive\":{\"title\":\"Top inaktive Spieler\",\"points\":\"Punkte\",\"fleet\":\"Flotte\",\"since\":\"Seit\",\"noPlayers\":\"Keine inaktiven Spieler gefunden.\"},\"export\":{\"exporting\":\"Export wird erstellt...\",\"success\":\"Export in <#{{channel}}> gepostet ({{size}} KB).\",\"error\":\"Export fehlgeschlagen.\"}},\"hub\":{\"overview\":{\"table\":{\"player\":\"Spieler\",\"ally\":\"Allianz\"}}},\"gameIds\":{\"resources\":{\"901\":\"Metall\",\"902\":\"Kristall\",\"903\":\"Deuterium\",\"904\":\"Energie\"},\"buildings\":{\"1\":\"Metallmine\",\"2\":\"Kristallmine\",\"3\":\"Deuterium-Synthetisierer\",\"4\":\"Solarkraftwerk\",\"14\":\"Roboterfabrik\",\"15\":\"Nanitenfabrik\"},\"defense\":{\"401\":\"Raketenwerfer\",\"402\":\"Leichtes Lasergeschuetz\",\"403\":\"Schweres Lasergeschuetz\",\"404\":\"Gausskanone\",\"405\":\"Ionengeschuetz\",\"406\":\"Plasmawerfer\",\"407\":\"Kleine Schildkuppel\",\"408\":\"Grosse Schildkuppel\",\"502\":\"Abfangrakete\",\"503\":\"Interplanetarrakete\"},\"ships\":{\"202\":\"Kleiner Transporter\",\"203\":\"Grosser Transporter\",\"204\":\"Leichter Jaeger\",\"205\":\"Schwerer Jaeger\",\"206\":\"Kreuzer\",\"207\":\"Schlachtschiff\",\"208\":\"Kolonieschiff\",\"209\":\"Recycler\",\"210\":\"Spionagesonde\",\"211\":\"Bomber\",\"212\":\"Solarsatellit\",\"213\":\"Zerstoerer\",\"214\":\"Todesstern\",\"215\":\"Schlachtkreuzer\"}}}"
    } else {
        "{\"bot\":{\"util\":{\"pong\":\"Pong!\",\"connected\":\"connected\",\"queryFailed\":\"query failed: {{error}}\",\"database\":\"Database\",\"botInfo\":\"Bot information\",\"allyId\":\"Ally ID\",\"permission\":\"Permission\"},\"user\":{\"created\":\"User for **{{name}}** created!\",\"removed\":\"User **{{name}}** removed.\",\"noUsers\":\"No users found.\",\"listTitle\":\"Users ({{count}})\",\"tableHeader\":\"ID   Player               Role       Active\",\"createError\":\"Could not create the user.\",\"removeError\":\"Could not remove the user.\",\"apiKey\":\"API key\",\"apiKeySent\":\"API key sent to <@{{user}}>.\",\"apiKeyDirect\":\"Keep this key safe.\",\"dmFailed\":\"Direct message failed; key shown here instead.\",\"sendKeyTitle\":\"Your access key\",\"sendKeyPlayer\":\"Player\",\"sendKeyWarning\":\"Do not share this key with anyone.\"},\"errors\":{\"noPermission\":\"You do not have permission for this command.\",\"adminOnly\":\"This command is for admins only.\",\"dbError\":\"Database error.\",\"sendError\":\"Could not send the message.\",\"dmError\":\"Could not open a direct message channel.\",\"userNotFound\":\"No user found for **{{name}}**.\",\"playerNotFound\":\"Player **{{name}}** not found.\",\"channelNotConfigured\":\"The target channel is not configured.\"},\"language\":{\"changed\":\"Bot language changed to **{{lang}}**.\",\"invalid\":\"Unknown language. Supported: {{languages}}\",\"current\":\"Current language: **{{lang}}**\",\"supported\":\"Supported languages: {{languages}}\"},\"planets\":{\"newPlanets\":\"New planets\",\"noNewPlanets\":\"No new planets.\",\"newPlanetsCount\":\"New planets ({{count}})\",\"total\":\"{{count}} planets in total\",\"posted\":\"{{count}} planets posted to <#{{channel}}>.\",\"markedSeen\":\"{{count}} planets marked as seen.\",\"markError\":\"Could not mark the planets as seen.\"},\"spy\":{\"title\":\"Spy report\",\"unknown\":\"unknown\",\"spiedBy\":\"Spied by {{name}}\",\"resources\":\"Resources\",\"buildings\":\"Buildings\",\"defense\":\"Defense\",\"fleet\":\"Fleet\",\"noData\":\"no data\",\"noDefense\":\"no defense\",\"noFleet\":\"no fleet\",\"noReport\":\"No spy report for {{coords}}.\"},\"inactive\":{\"title\":\"Top inactive players\",\"points\":\"Points\",\"fleet\":\"Fleet\",\"since\":\"Since\",\"noPlayers\":\"No inactive players found.\"},\"export\":{\"exporting\":\"Building the export...\",\"success\":\"Export posted to <#{{channel}}> ({{size}} KB).\",\"error\":\"Export failed.\"}},\"hub\":{\"overview\":{\"table\":{\"player\":\"Player\",\"ally\":\"Ally\"}}},\"gameIds\":{\"resources\":{\"901\":\"Metal\",\"902\":\"Crystal\",\"903\":\"Deuterium\",\"904\":\"Energy\"},\"buildings\":{\"1\":\"Metal Mine\",\"2\":\"Crystal Mine\",\"3\":\"Deuterium Synthesizer\",\"4\":\"Solar Plant\",\"14\":\"Robotics Factory\",\"15\":\"Nanite Factory\"},\"defense\":{\"401\":\"Rocket Launcher\",\"402\":\"Light Laser\",\"403\":\"Heavy Laser\",\"404\":\"Gauss Cannon\",\"405\":\"Ion Cannon\",\"406\":\"Plasma Turret\",\"407\":\"Small Shield Dome\",\"408\":\"Large Shield Dome\",\"502\":\"Anti-Ballistic Missile\",\"503\":\"Interplanetary Missile\"},\"ships\":{\"202\":\"Small Cargo\",\"203\":\"Large Cargo\",\"204\":\"Light Fighter\",\"205\":\"Heavy Fighter\",\"206\":\"Cruiser\",\"207\":\"Battleship\",\"208\":\"Colony Ship\",\"209\":\"Recycler\",\"210\":\"Espionage Probe\",\"211\":\"Bomber\",\"212\":\"Solar Satellite\",\"213\":\"Destroyer\",\"214\":\"Deathstar\",\"215\":\"Battlecruiser\"}}}"
    };
    proof {
        reveal_strlit("{\"bot\":{\"util\":{\"pong\":\"Pong!\",\"connected\":\"verbunden\",\"queryFailed\":\"Abfrage fehlgeschlagen: {{error}}\",\"database\":\"Datenbank\",\"botInfo\":\"Bot-Informationen\",\"allyId\":\"Allianz-ID\",\"permission\":\"Berechtigung\"},\"user\":{\"created\":\"User fuer **{{name}}** angelegt!\",\"removed\":\"User **{{name}}** entfernt.\",\"noUsers\":\"Keine User gefunden.\",\"listTitle\":\"User ({{count}})\",\"tableHeader\":\"ID   Spieler              Rolle      Aktiv\",\"createError\":\"User konnte nicht angelegt werden.\",\"removeError\":\"User konnte nicht entfernt werden.\",\"apiKey\":\"API-Key\",\"apiKeySent\":\"API-Key an <@{{user}}> gesendet.\",\"apiKeyDirect\":\"Diesen Key sicher aufbewahren.\",\"dmFailed\":\"Direktnachricht fehlgeschlagen; Key wird hier angezeigt.\",\"sendKeyTitle\":\"Dein Zugangsschluessel\",\"sendKeyPlayer\":\"Spieler\",\"sendKeyWarning\":\"Diesen Key mit niemandem teilen.\"},\"errors\":{\"noPermission\":\"Du hast keine Berechtigung fuer diesen Befehl.\",\"adminOnly\":\"Dieser Befehl ist nur fuer Admins.\",\"dbError\":\"Datenbankfehler.\",\"sendError\":\"Nachricht konnte nicht gesendet werden.\",\"dmError\":\"Direktnachricht-Kanal konnte nicht geoeffnet werden.\",\"userNotFound\":\"Kein User fuer **{{name}}** gefunden.\",\"playerNotFound\":\"Spieler **{{name}}** nicht gefunden.\",\"channelNotConfigured\":\"Der Zielkanal ist nicht konfiguriert.\"},\"language\":{\"changed\":\"Bot-Sprache auf **{{lang}}** umgestellt.\",\"invalid\":\"Unbekannte Sprache. Unterstuetzt: {{languages}}\",\"current\":\"Aktuelle Sprache: **{{lang}}**\",\"supported\":\"Unterstuetzte Sprachen: {{languages}}\"},\"planets\":{\"newPlanets\":\"Neue Planeten\",\"noNewPlanets\":\"Keine neuen Planeten.\",\"newPlanetsCount\":\"Neue Planeten ({{count}})\",\"total\":\"{{count}} Planeten insgesamt\",\"posted\":\"{{count}} Planeten in <#{{channel}}> gepostet.\",\"markedSeen\":\"{{count}} Planeten als gesehen markiert.\",\"markError\":\"Planeten konnten nicht als gesehen markiert werden.\"},\"spy\":{\"title\":\"Spionagebericht\",\"unknown\":\"unbekannt\",\"spiedBy\":\"Spioniert von {{name}}\",\"resources\":\"Rohstoffe\",\"buildings\":\"Gebaeude\",\"defense\":\"Verteidigung\",\"fleet\":\"Flotte\",\"noData\":\"keine Daten\",\"noDefense\":\"keine Verteidigung\",\"noFleet\":\"keine Flotte\",\"noReport\":\"Kein Spionagebericht fuer {{coords}}.\"},\"inactive\":{\"title\":\"Top inaktive Spieler\",\"points\":\"Punkte\",\"fleet\":\"Flotte\",\"since\":\"Seit\",\"noPlayers\":\"Keine inaktiven Spieler gefunden.\"},\"export\":{\"exporting\":\"Export wird erstellt...\",\"success\":\"Export in <#{{channel}}> gepostet ({{size}} KB).\",\"error\":\"Export fehlgeschlagen.\"}},\"hub\":{\"overview\":{\"table\":{\"player\":\"Spieler\",\"ally\":\"Allianz\"}}},\"gameIds\":{\"resources\":{\"901\":\"Metall\",\"902\":\"Kristall\",\"903\":\"Deuterium\",\"904\":\"Energie\"},\"buildings\":{\"1\":\"Metallmine\",\"2\":\"Kristallmine\",\"3\":\"Deuterium-Synthetisierer\",\"4\":\"Solarkraftwerk\",\"14\":\"Roboterfabrik\",\"15\":\"Nanitenfabrik\"},\"defense\":{\"401\":\"Raketenwerfer\",\"402\":\"Leichtes Lasergeschuetz\",\"403\":\"Schweres Lasergeschuetz\",\"404\":\"Gausskanone\",\"405\":\"Ionengeschuetz\",\"406\":\"Plasmawerfer\",\"407\":\"Kleine Schildkuppel\",\"408\":\"Grosse Schildkuppel\",\"502\":\"Abfangrakete\",\"503\":\"Interplanetarrakete\"},\"ships\":{\"202\":\"Kleiner Transporter\",\"203\":\"Grosser Transporter\",\"204\":\"Leichter Jaeger\",\"205\":\"Schwerer Jaeger\",\"206\":\"Kreuzer\",\"207\":\"Schlachtschiff\",\"208\":\"Kolonieschiff\",\"209\":\"Recycler\",\"210\":\"Spionagesonde\",\"211\":\"Bomber\",\"212\":\"Solarsatellit\",\"213\":\"Zerstoerer\",\"214\":\"Todesstern\",\"215\":\"Schlachtkreuzer\"}}}");
        reveal_strlit("{\"bot\":{\"util\":{\"pong\":\"Pong!\",\"connected\":\"connected\",\"queryFailed\":\"query failed: {{error}}\",\"database\":\"Database\",\"botInfo\":\"Bot information\",\"allyId\":\"Ally ID\",\"permission\":\"Permission\"},\"user\":{\"created\":\"User for **{{name}}** created!\",\"removed\":\"User **{{name}}** removed.\",\"noUsers\":\"No users found.\",\"listTitle\":\"Users ({{count}})\",\"tableHeader\":\"ID   Player               Role       Active\",\"createError\":\"Could not create the user.\",\"removeError\":\"Could not remove the user.\",\"apiKey\":\"API key\",\"apiKeySent\":\"API key sent to <@{{user}}>.\",\"apiKeyDirect\":\"Keep this key safe.\",\"dmFailed\":\"Direct message failed; key shown here instead.\",\"sendKeyTitle\":\"Your access key\",\"sendKeyPlayer\":\"Player\",\"sendKeyWarning\":\"Do not share this key with anyone.\"},\"errors\":{\"noPermission\":\"You do not have permission for this command.\",\"adminOnly\":\"This command is for admins only.\",\"dbError\":\"Database error.\",\"sendError\":\"Could not send the message.\",\"dmError\":\"Could not open a direct message channel.\",\"userNotFound\":\"No user found for **{{name}}**.\",\"playerNotFound\":\"Player **{{name}}** not found.\",\"channelNotConfigured\":\"The target channel is not configured.\"},\"language\":{\"changed\":\"Bot language changed to **{{lang}}**.\",\"invalid\":\"Unknown language. Supported: {{languages}}\",\"current\":\"Current language: **{{lang}}**\",\"supported\":\"Supported languages: {{languages}}\"},\"planets\":{\"newPlanets\":\"New planets\",\"noNewPlanets\":\"No new planets.\",\"newPlanetsCount\":\"New planets ({{count}})\",\"total\":\"{{count}} planets in total\",\"posted\":\"{{count}} planets posted to <#{{channel}}>.\",\"markedSeen\":\"{{count}} planets marked as seen.\",\"markError\":\"Could not mark the planets as seen.\"},\"spy\":{\"title\":\"Spy report\",\"unknown\":\"unknown\",\"spiedBy\":\"Spied by {{name}}\",\"resources\":\"Resources\",\"buildings\":\"Buildings\",\"defense\":\"Defense\",\"fleet\":\"Fleet\",\"noData\":\"no data\",\"noDefense\":\"no defense\",\"noFleet\":\"no fleet\",\"noReport\":\"No spy report for {{coords}}.\"},\"inactive\":{\"title\":\"Top inactive players\",\"points\":\"Points\",\"fleet\":\"Fleet\",\"since\":\"Since\",\"noPlayers\":\"No inactive players found.\"},\"export\":{\"exporting\":\"Building the export...\",\"success\":\"Export posted to <#{{channel}}> ({{size}} KB).\",\"error\":\"Export failed.\"}},\"hub\":{\"overview\":{\"table\":{\"player\":\"Player\",\"ally\":\"Ally\"}}},\"gameIds\":{\"resources\":{\"901\":\"Metal\",\"902\":\"Crystal\",\"903\":\"Deuterium\",\"904\":\"Energy\"},\"buildings\":{\"1\":\"Metal Mine\",\"2\":\"Crystal Mine\",\"3\":\"Deuterium Synthesizer\",\"4\":\"Solar Plant\",\"14\":\"Robotics Factory\",\"15\":\"Nanite Factory\"},\"defense\":{\"401\":\"Rocket Launcher\",\"402\":\"Light Laser\",\"403\":\"Heavy Laser\",\"404\":\"Gauss Cannon\",\"405\":\"Ion Cannon\",\"406\":\"Plasma Turret\",\"407\":\"Small Shield Dome\",\"408\":\"Large Shield Dome\",\"502\":\"Anti-Ballistic Missile\",\"503\":\"Interplanetary Missile\"},\"ships\":{\"202\":\"Small Cargo\",\"203\":\"Large Cargo\",\"204\":\"Light Fighter\",\"205\":\"Heavy Fighter\",\"206\":\"Cruiser\",\"207\":\"Battleship\",\"208\":\"Colony Ship\",\"209\":\"Recycler\",\"210\":\"Espionage Probe\",\"211\":\"Bomber\",\"212\":\"Solar Satellite\",\"213\":\"Destroyer\",\"214\":\"Deathstar\",\"215\":\"Battlecruiser\"}}}");
    }
    r
}

/// `s` with every occurrence of `pat` replaced by `val`, scanning left to
/// right without rescanning replacements, as `str::replace` does.
pub open spec fn replace_all_spec(s: Seq<char>, pat: Seq<char>, val: Seq<char>) -> Seq<char>
    decreases s.len(),
{
    if pat.len() == 0 || s.len() < pat.len() {
        s
    } else if s.take(pat.len() as int) == pat {
        val + replace_all_spec(s.skip(pat.len() as int), pat, val)
    } else {
        seq![s[0]] + replace_all_spec(s.skip(1), pat, val)
    }
}

/// Whether `pat` occurs in `s` at position `i`.
fn matches_at(s: &str, n: usize, i: usize, pat: &str, plen: usize) -> (r: bool)
    requires
        n == s@.len(),
        plen == pat@.len(),
        i + plen <= n,
    ensures
        r == (s@.skip(i as int).take(plen as int) == pat@),
{
    let mut j: usize = 0;
    while j < plen
        invariant
            0 <= j <= plen,
            n == s@.len(),
            plen == pat@.len(),
            i + plen <= n,
            forall|k: int| 0 <= k < j ==> s@[i + k] == pat@[k],
        decreases plen - j,
    {
        if s.get_char(i + j) != pat.get_char(j) {
            proof {
                assert(s@.skip(i as int).take(plen as int)[j as int] == s@[i + j]);
            }
            return false;
        }
        j = j + 1;
    }
    proof {
        assert(s@.skip(i as int).take(plen as int) =~= pat@);
    }
    true
}

/// Replaces every occurrence of `pat` in `s` by `val`.
pub fn replace_all(s: &str, pat: &str, val: &str) -> (r: String)
    ensures
        r@ == replace_all_spec(s@, pat@, val@),
{
    let n = s.unicode_len();
    let plen = pat.unicode_len();
    if plen == 0 {
        return s.to_owned();
    }
    let mut out = String::new();
    let mut i: usize = 0;
    proof {
        assert(s@.skip(0) =~= s@);
        assert(out@ + s@ =~= s@);
        assert(out@ + replace_all_spec(s@, pat@, val@) =~= replace_all_spec(s@, pat@, val@));
    }
    while i < n
        invariant
            0 <= i <= n,
            n == s@.len(),
            plen == pat@.len(),
            plen > 0,
            replace_all_spec(s@, pat@, val@) == out@ + replace_all_spec(s@.skip(i as int), pat@, val@),
        decreases n - i,
    {
        if n - i >= plen && matches_at(s, n, i, pat, plen) {
            out.append(val);
            proof {
                assert(s@.skip(i as int).skip(plen as int) =~= s@.skip(i + plen));
                assert(replace_all_spec(s@.skip(i as int), pat@, val@) == val@ + replace_all_spec(
                    s@.skip(i + plen),
                    pat@,
                    val@,
                ));
            }
            i = i + plen;
        } else {
            let c = s.substring_char(i, i + 1);
            out.append(c);
            proof {
                assert(c@ =~= seq![s@[i as int]]);
                assert(s@.skip(i as int).skip(1) =~= s@.skip(i + 1));
                if s@.skip(i as int).len() >= plen {
                    assert(s@.skip(i as int)[0] == s@[i as int]);
                    assert(replace_all_spec(s@.skip(i as int), pat@, val@) == seq![s@[i as int]]
                        + replace_all_spec(s@.skip(i + 1), pat@, val@));
                } else {
                    assert(replace_all_spec(s@.skip(i as int), pat@, val@) =~= s@.skip(i as int));
                    assert(replace_all_spec(s@.skip(i + 1), pat@, val@) =~= s@.skip(i + 1));
                    assert(s@.skip(i as int) =~= seq![s@[i as int]] + s@.skip(i + 1));
                }
            }
            i = i + 1;
        }
    }
    proof {
        assert(s@.skip(n as int) =~= Seq::<char>::empty());
        assert(replace_all_spec(Seq::<char>::empty(), pat@, val@) =~= Seq::<char>::empty());
        assert(out@ + Seq::<char>::empty() =~= out@);
    }
    out
}

/// The interpolation pattern of a parameter name: `{{name}}`.
pub open spec fn pattern_of(name: Seq<char>) -> Seq<char> {
    "{{"@ + name + "}}"@
}

/// Builds the interpolation pattern of a parameter name.
fn build_pattern(name: &str) -> (r: String)
    ensures
        r@ == pattern_of(name@),
{
    let mut out = String::from_str("{{");
    out.append(name);
    out.append("}}");
    proof {
        assert(out@ =~= pattern_of(name@));
    }
    out
}

/// The text after all parameters are interpolated, in order.
pub open spec fn apply_params(s: Seq<char>, ps: Seq<(Seq<char>, Seq<char>)>) -> Seq<char>
    decreases ps.len(),
{
    if ps.len() == 0 {
        s
    } else {
        apply_params(replace_all_spec(s, pattern_of(ps[0].0), ps[0].1), ps.skip(1))
    }
}

/// The views of a parameter list.
pub open spec fn params_view(ps: Seq<(&str, &str)>) -> Seq<(Seq<char>, Seq<char>)> {
    ps.map_values(|p: (&str, &str)| (p.0@, p.1@))
}

/// What a translation yields: an unsupported language falls back to
/// English; a missing key yields the key itself, uninterpolated; a found
/// template has its `{{name}}` parameters interpolated in order.
pub open spec fn t_spec(lang: Seq<char>, key: Seq<char>, ps: Seq<(Seq<char>, Seq<char>)>) -> Seq<
    char,
> {
    let de = lang == "de"@;
    match locale_of(de, key) {
        Some(text) => apply_params(text, ps),
        None => key,
    }
}

/// Peeling one parameter off the end of a prefix.
proof fn lemma_apply_params_snoc(s: Seq<char>, ps: Seq<(Seq<char>, Seq<char>)>, i: int)
    requires
        0 <= i < ps.len(),
    ensures
        apply_params(s, ps.subrange(0, i + 1)) == replace_all_spec(
            apply_params(s, ps.subrange(0, i)),
            pattern_of(ps[i].0),
            ps[i].1,
        ),
    decreases i,
{
    if i == 0 {
        assert(ps.subrange(0, 1).skip(1) =~= Seq::<(Seq<char>, Seq<char>)>::empty());
        assert(ps.subrange(0, 0) =~= Seq::<(Seq<char>, Seq<char>)>::empty());
        assert(ps.subrange(0, 1)[0] == ps[0]);
        let e = replace_all_spec(s, pattern_of(ps[0].0), ps[0].1);
        assert(apply_params(s, ps.subrange(0, 1)) == apply_params(e, ps.subrange(0, 1).skip(1)));
        assert(apply_params(e, Seq::<(Seq<char>, Seq<char>)>::empty()) == e);
        assert(apply_params(s, Seq::<(Seq<char>, Seq<char>)>::empty()) == s);
    } else {
        let l1 = ps.skip(1);
        let e = replace_all_spec(s, pattern_of(ps[0].0), ps[0].1);
        lemma_apply_params_snoc(e, l1, i - 1);
        assert(ps.subrange(0, i + 1)[0] == ps[0]);
        assert(ps.subrange(0, i)[0] == ps[0]);
        assert(ps.subrange(0, i + 1).skip(1) =~= l1.subrange(0, i));
        assert(ps.subrange(0, i).skip(1) =~= l1.subrange(0, i - 1));
        assert(l1[i - 1] == ps[i]);
        assert(apply_params(s, ps.subrange(0, i + 1)) == apply_params(e, l1.subrange(0, i)));
        assert(apply_params(s, ps.subrange(0, i)) == apply_params(e, l1.subrange(0, i - 1)));
    }
}

/// Translates a dot-notated key with optional `{{name}}` parameter
/// interpolation; an unsupported language falls back to English and a
/// missing key is returned as it is.
pub fn t(lang: &str, key: &str, params: &[(&str, &str)]) -> (r: String)
    ensures
        r@ == t_spec(
            (if valid_language(lang@) {
                lang@
            } else {
                "en"@
            }),
            key@,
            params_view(params@),
        ),
{
    let de = if is_valid_language(lang) {
        str_eq(lang, "de")
    } else {
        false
    };
    proof {
        if valid_language(lang@) {
            assert(de == (lang@ == "de"@));
        } else {
            reveal_strlit("en");
            reveal_strlit("de");
            assert("en"@ != "de"@) by {
                assert("en"@[0] == 'e' && "de"@[0] == 'd');
            }
            assert(de == ("en"@ == "de"@));
        }
    }
    let text_opt = if de {
        locale_de_value(key)
    } else {
        locale_en_value(key)
    };
    let text = match text_opt {
        Some(v) => v,
        None => {
            return key.to_owned();
        },
    };
    let ghost pv = params_view(params@);
    let mut result = text.to_owned();
    let mut i: usize = 0;
    proof {
        assert(pv.subrange(0, 0) =~= Seq::<(Seq<char>, Seq<char>)>::empty());
    }
    while i < params.len()
        invariant
            0 <= i <= params@.len(),
            pv == params_view(params@),
            pv.len() == params@.len(),
            result@ == apply_params(text@, pv.subrange(0, i as int)),
        decreases params@.len() - i,
    {
        let pair = params[i];
        proof {
            assert(pv[i as int] == (params@[i as int].0@, params@[i as int].1@));
        }
        let pattern = build_pattern(pair.0);
        result = replace_all(result.as_str(), pattern.as_str(), pair.1);
        proof {
            lemma_apply_params_snoc(text@, pv, i as int);
        }
        i = i + 1;
    }
    proof {
        assert(pv.subrange(0, pv.len() as int) =~= pv);
    }
    result
}

} // verus!
