use autotabber::Key;
use autotabber::midi_to_tab;

#[test]
fn key_offsets() {
    assert_eq!(Key::C.offset(), 0);
    assert_eq!(Key::G.offset(), -5);
    assert_eq!(Key::D.offset(), 2);
    assert_eq!(Key::A.offset(), -3);
    assert_eq!(Key::E.offset(), 4);
    assert_eq!(Key::B.offset(), -1);
    assert_eq!(Key::Fs.offset(), 6);
    assert_eq!(Key::Db.offset(), 1);
    assert_eq!(Key::Ab.offset(), -4);
    assert_eq!(Key::Eb.offset(), 3);
    assert_eq!(Key::Bb.offset(), -2);
    assert_eq!(Key::F.offset(), 5);
    assert_eq!(Key::LF.offset(), -7);
    assert_eq!(Key::LC.offset(), -12);
    assert_eq!(Key::LD.offset(), -10);
    assert_eq!(Key::HG.offset(), 7);
}

#[test]
fn key_from_name_accepts_all_sixteen() {
    assert_eq!(Key::from_name("C"), Some(Key::C));
    assert_eq!(Key::from_name("G"), Some(Key::G));
    assert_eq!(Key::from_name("D"), Some(Key::D));
    assert_eq!(Key::from_name("A"), Some(Key::A));
    assert_eq!(Key::from_name("E"), Some(Key::E));
    assert_eq!(Key::from_name("B"), Some(Key::B));
    assert_eq!(Key::from_name("F#"), Some(Key::Fs));
    assert_eq!(Key::from_name("Db"), Some(Key::Db));
    assert_eq!(Key::from_name("Ab"), Some(Key::Ab));
    assert_eq!(Key::from_name("Eb"), Some(Key::Eb));
    assert_eq!(Key::from_name("Bb"), Some(Key::Bb));
    assert_eq!(Key::from_name("F"), Some(Key::F));
    assert_eq!(Key::from_name("LF"), Some(Key::LF));
    assert_eq!(Key::from_name("LC"), Some(Key::LC));
    assert_eq!(Key::from_name("LD"), Some(Key::LD));
    assert_eq!(Key::from_name("HG"), Some(Key::HG));
}

#[test]
fn key_from_name_rejects_unknown() {
    assert_eq!(Key::from_name(""), None);
    assert_eq!(Key::from_name("c"), None);
    assert_eq!(Key::from_name("H"), None);
    assert_eq!(Key::from_name("C "), None);
    assert_eq!(Key::from_name("Gb"), None);
}

#[test]
fn tab_table_anchors() {
    assert_eq!(midi_to_tab(60, Key::C), "1");
    assert_eq!(midi_to_tab(61, Key::C), "-1'");
    assert_eq!(midi_to_tab(62, Key::C), "-1");
    assert_eq!(midi_to_tab(69, Key::C), "-3''");
    assert_eq!(midi_to_tab(72, Key::C), "4");
    assert_eq!(midi_to_tab(84, Key::C), "7");
    assert_eq!(midi_to_tab(95, Key::C), "10'");
}

#[test]
fn tab_out_of_range_is_empty() {
    assert_eq!(midi_to_tab(59, Key::C), "");
    assert_eq!(midi_to_tab(96, Key::C), "");
    assert_eq!(midi_to_tab(0, Key::C), "");
    assert_eq!(midi_to_tab(255, Key::C), "");
    // key G shifts the playable window down five semitones
    assert_eq!(midi_to_tab(54, Key::G), "");
    assert_eq!(midi_to_tab(91, Key::G), "");
}

#[test]
fn tab_respects_key_offset() {
    // index = midi - 60 - offset
    assert_eq!(midi_to_tab(55, Key::G), "1");
    assert_eq!(midi_to_tab(62, Key::D), "1");
    assert_eq!(midi_to_tab(67, Key::HG), "1");
    assert_eq!(midi_to_tab(48, Key::LC), "1");
    assert_eq!(midi_to_tab(60, Key::G), "-2''");
}

#[test]
fn tab_key_offset_consistency() {
    // shifting the note by the difference of the offsets lands on the same
    // symbol: midi + o2 - o1 keeps the table index unchanged
    for midi in 40u8..120u8 {
        let keys = [Key::C, Key::G, Key::D, Key::LC, Key::HG, Key::Fs];
        for &k1 in keys.iter() {
            for &k2 in keys.iter() {
                let shifted = midi as i16 + k2.offset() as i16 - k1.offset() as i16;
                if (0..=255).contains(&shifted) {
                    assert_eq!(midi_to_tab(midi, k1), midi_to_tab(shifted as u8, k2));
                }
            }
        }
    }
}
