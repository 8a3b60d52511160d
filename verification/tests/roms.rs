use zx_rustrum::hardware::{multiface_model, peripheral_of, MultifaceModel, Peripheral};
use zx_rustrum::roms::{Model, Roms};

#[test]
fn rom_size_says_which_machine() {
    assert_eq!(Roms::model_for_rom_size(0x4000), Some(Model::Spectrum48));
    assert_eq!(Roms::model_for_rom_size(0x8000), Some(Model::Spectrum128));
    assert_eq!(Roms::model_for_rom_size(0x10000), Some(Model::Plus3));
    assert_eq!(Roms::model_for_rom_size(8192), None);
    assert_eq!(Roms::model_for_rom_size(0), None);
}

#[test]
fn set_rom_is_the_one_got_back() {
    let mut roms = Roms::default();
    assert!(roms.for_model(Model::Spectrum48).is_none());
    roms.set_for_model(Model::Spectrum48, vec![1, 2, 3]);
    assert_eq!(roms.for_model(Model::Spectrum48), Some(&vec![1, 2, 3]));
    assert!(roms.for_model(Model::Spectrum128).is_none());
}

#[test]
fn plus2a_and_plus3_share_their_rom() {
    let mut roms = Roms::default();
    roms.set_for_model(Model::Plus2A, vec![7; 4]);
    assert_eq!(roms.for_model(Model::Plus3), Some(&vec![7; 4]));
    assert!(roms.rom48.is_none());
}

#[test]
fn expected_files() {
    assert_eq!(Roms::expected_file(Model::Spectrum48), "roms/48.rom");
    assert_eq!(Roms::expected_file(Model::Spectrum128), "roms/128.rom");
    assert_eq!(Roms::expected_file(Model::Plus2A), "roms/plus3.rom");
    assert_eq!(Roms::expected_file(Model::Plus3), "roms/plus3.rom");
}

#[test]
fn names_that_suggest_a_machine() {
    assert!(Roms::name_suggests("roms/48.rom", Model::Spectrum48));
    assert!(Roms::name_suggests("/x/Spectrum128.ROM", Model::Spectrum128));
    assert!(Roms::name_suggests("plus2.rom", Model::Spectrum128));
    assert!(Roms::name_suggests("PLUS3.bin", Model::Plus3));
    assert!(Roms::name_suggests("spectrum+3.rom", Model::Plus2A));
    assert!(Roms::name_suggests("plus2a.rom", Model::Plus3));
    assert!(!Roms::name_suggests("48/other.rom", Model::Spectrum48));
    assert!(!Roms::name_suggests("game.rom", Model::Spectrum128));
}

#[test]
fn rom_files_by_extension() {
    assert!(Roms::is_rom_file("a/b.rom"));
    assert!(Roms::is_rom_file("a/b.BIN"));
    assert!(!Roms::is_rom_file("a/b.tap"));
    assert!(!Roms::is_rom_file("rom"));
}

#[test]
fn a_named_rom_beats_the_first_that_fits() {
    let files = vec![
        ("d/aaa.rom".to_string(), Some(0x8000u64)),
        ("d/b48.rom".to_string(), Some(0x4000u64)),
        ("d/spectrum128.rom".to_string(), Some(0x8000u64)),
        ("d/notes.txt".to_string(), Some(0x4000u64)),
        ("d/zzz.rom".to_string(), None),
        ("d/plus3.rom".to_string(), Some(0x10000u64)),
    ];
    let chosen = Roms::choose_from(&files);
    assert_eq!(
        chosen,
        vec![
            ("d/spectrum128.rom".to_string(), Model::Spectrum128),
            ("d/b48.rom".to_string(), Model::Spectrum48),
            ("d/plus3.rom".to_string(), Model::Plus3),
        ]
    );
}

#[test]
fn without_names_the_first_of_each_size_wins() {
    let files = vec![
        ("one.rom".to_string(), Some(0x4000u64)),
        ("two.rom".to_string(), Some(0x4000u64)),
    ];
    assert_eq!(
        Roms::choose_from(&files),
        vec![("one.rom".to_string(), Model::Spectrum48)]
    );
}

#[test]
fn multifaces_and_peripherals_round_trip() {
    assert_eq!(multiface_model(Peripheral::Multiface128), Some(MultifaceModel::OneTwentyEight));
    assert_eq!(multiface_model(Peripheral::Fuller), None);
    for m in [MultifaceModel::One, MultifaceModel::OneTwentyEight, MultifaceModel::Three] {
        assert_eq!(multiface_model(peripheral_of(m)), Some(m));
    }
}

#[test]
fn adopting_fills_only_empty_machines() {
    let mut roms = Roms::default();
    roms.set_for_model(Model::Spectrum128, vec![9; 4]);
    let picks = vec![
        ("/r/48.rom".to_string(), Model::Spectrum48),
        ("/r/128.rom".to_string(), Model::Spectrum128),
        ("/r/plus3.rom".to_string(), Model::Plus3),
    ];
    assert_eq!(roms.wanted(&picks), vec![true, false, true]);
    let got = roms.adopt(&picks, vec![Some(vec![1, 2]), Some(vec![3]), None]);
    assert_eq!(got, vec![("48.rom".to_string(), Model::Spectrum48)]);
    assert_eq!(roms.for_model(Model::Spectrum48), Some(&vec![1, 2]));
    assert_eq!(roms.for_model(Model::Spectrum128), Some(&vec![9; 4]));
    assert_eq!(roms.for_model(Model::Plus3), None);
}

#[test]
fn the_plus2a_and_plus3_share_what_is_adopted() {
    let mut roms = Roms::default();
    let picks = vec![
        ("a/plus2a.rom".to_string(), Model::Plus2A),
        ("a/plus3.rom".to_string(), Model::Plus3),
    ];
    let got = roms.adopt(&picks, vec![Some(vec![5]), Some(vec![6])]);
    assert_eq!(got, vec![("plus2a.rom".to_string(), Model::Plus2A)]);
    assert_eq!(roms.for_model(Model::Plus3), Some(&vec![5]));
}
