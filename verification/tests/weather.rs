use waterpi_sprinkler::weather::condition_fr;

#[test]
fn known_conditions_are_translated() {
    assert_eq!(condition_fr("sunny"), "Ensoleillé");
    assert_eq!(condition_fr("partlycloudy"), "Partiellement nuageux");
    assert_eq!(condition_fr("lightning-rainy"), "Orage et pluie");
    assert_eq!(condition_fr("windy-variant"), "Venteux");
}

#[test]
fn unknown_condition_passes_through() {
    assert_eq!(condition_fr("weird-state"), "weird-state");
}

#[test]
fn labels_fit_the_display_width() {
    for c in [
        "sunny",
        "clear-night",
        "partlycloudy",
        "cloudy",
        "rainy",
        "pouring",
        "lightning",
        "lightning-rainy",
        "snowy",
        "snowy-rainy",
        "hail",
        "fog",
        "windy",
        "exceptional",
    ] {
        assert!(condition_fr(c).chars().count() <= 21, "label too long for {c}");
    }
}

#[test]
fn every_label() {
    assert_eq!(condition_fr("clear-night"), "Nuit claire");
    assert_eq!(condition_fr("cloudy"), "Nuageux");
    assert_eq!(condition_fr("rainy"), "Pluie");
    assert_eq!(condition_fr("pouring"), "Pluie forte");
    assert_eq!(condition_fr("lightning"), "Orage");
    assert_eq!(condition_fr("snowy"), "Neige");
    assert_eq!(condition_fr("snowy-rainy"), "Neige et pluie");
    assert_eq!(condition_fr("hail"), "Grêle");
    assert_eq!(condition_fr("fog"), "Brouillard");
    assert_eq!(condition_fr("windy"), "Venteux");
    assert_eq!(condition_fr("exceptional"), "Exceptionnel");
    assert_eq!(condition_fr(""), "");
    assert_eq!(condition_fr("Sunny"), "Sunny");
}
