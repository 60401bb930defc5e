//! Home Assistant weather conditions as shown on the idle display view.
//!
//! The poller that fetches the current conditions, and the reading of the
//! temperature (a floating-point attribute), live with the application.
use vstd::prelude::*;
use crate::text::str_eq;

verus! {

/// Widest label that fits on one line of the small display font.
pub const LABEL_COLUMNS: usize = 21;

/// The conditions that Home Assistant reports and that have a French label.
pub open spec fn known_condition(c: Seq<char>) -> bool {
    ||| c == "sunny"@
    ||| c == "clear-night"@
    ||| c == "partlycloudy"@
    ||| c == "cloudy"@
    ||| c == "rainy"@
    ||| c == "pouring"@
    ||| c == "lightning"@
    ||| c == "lightning-rainy"@
    ||| c == "snowy"@
    ||| c == "snowy-rainy"@
    ||| c == "hail"@
    ||| c == "fog"@
    ||| c == "windy"@
    ||| c == "windy-variant"@
    ||| c == "exceptional"@
}

/// French label of a Home Assistant weather condition; an unknown condition
/// is shown unchanged.
pub open spec fn condition_label(c: Seq<char>) -> Seq<char> {
    if c == "sunny"@ {
        "Ensoleillé"@
    } else if c == "clear-night"@ {
        "Nuit claire"@
    } else if c == "partlycloudy"@ {
        "Partiellement nuageux"@
    } else if c == "cloudy"@ {
        "Nuageux"@
    } else if c == "rainy"@ {
        "Pluie"@
    } else if c == "pouring"@ {
        "Pluie forte"@
    } else if c == "lightning"@ {
        "Orage"@
    } else if c == "lightning-rainy"@ {
        "Orage et pluie"@
    } else if c == "snowy"@ {
        "Neige"@
    } else if c == "snowy-rainy"@ {
        "Neige et pluie"@
    } else if c == "hail"@ {
        "Grêle"@
    } else if c == "fog"@ {
        "Brouillard"@
    } else if c == "windy"@ || c == "windy-variant"@ {
        "Venteux"@
    } else if c == "exceptional"@ {
        "Exceptionnel"@
    } else {
        c
    }
}

/// Maps a Home Assistant weather condition to its French label.
pub fn condition_fr(condition: &str) -> (label: &str)
    ensures
        label@ == condition_label(condition@),
{
    if str_eq(condition, "sunny") {
        "Ensoleillé"
    } else if str_eq(condition, "clear-night") {
        "Nuit claire"
    } else if str_eq(condition, "partlycloudy") {
        "Partiellement nuageux"
    } else if str_eq(condition, "cloudy") {
        "Nuageux"
    } else if str_eq(condition, "rainy") {
        "Pluie"
    } else if str_eq(condition, "pouring") {
        "Pluie forte"
    } else if str_eq(condition, "lightning") {
        "Orage"
    } else if str_eq(condition, "lightning-rainy") {
        "Orage et pluie"
    } else if str_eq(condition, "snowy") {
        "Neige"
    } else if str_eq(condition, "snowy-rainy") {
        "Neige et pluie"
    } else if str_eq(condition, "hail") {
        "Grêle"
    } else if str_eq(condition, "fog") {
        "Brouillard"
    } else if str_eq(condition, "windy") || str_eq(condition, "windy-variant") {
        "Venteux"
    } else if str_eq(condition, "exceptional") {
        "Exceptionnel"
    } else {
        condition
    }
}

/// Every label of a known condition fits the display width.
pub proof fn known_labels_fit(c: Seq<char>)
    requires
        known_condition(c),
    ensures
        condition_label(c).len() <= LABEL_COLUMNS,
{
    reveal_strlit("sunny");
    reveal_strlit("clear-night");
    reveal_strlit("partlycloudy");
    reveal_strlit("cloudy");
    reveal_strlit("rainy");
    reveal_strlit("pouring");
    reveal_strlit("lightning");
    reveal_strlit("lightning-rainy");
    reveal_strlit("snowy");
    reveal_strlit("snowy-rainy");
    reveal_strlit("hail");
    reveal_strlit("fog");
    reveal_strlit("windy");
    reveal_strlit("windy-variant");
    reveal_strlit("exceptional");
    reveal_strlit("Ensoleillé");
    reveal_strlit("Nuit claire");
    reveal_strlit("Partiellement nuageux");
    reveal_strlit("Nuageux");
    reveal_strlit("Pluie");
    reveal_strlit("Pluie forte");
    reveal_strlit("Orage");
    reveal_strlit("Orage et pluie");
    reveal_strlit("Neige");
    reveal_strlit("Neige et pluie");
    reveal_strlit("Grêle");
    reveal_strlit("Brouillard");
    reveal_strlit("Venteux");
    reveal_strlit("Exceptionnel");
}

/// A condition without a French label is shown as Home Assistant sent it.
pub proof fn unknown_condition_unchanged(c: Seq<char>)
    requires
        !known_condition(c),
    ensures
        condition_label(c) == c,
{
}

} // verus!
