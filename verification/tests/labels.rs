use zweiton::keys::Layout;
use zweiton::{NoiseDist, NoiseMode, OscInteract, Waveform};

#[test]
fn noise_mode_labels() {
    assert_eq!(NoiseMode::ALL.len(), 4);
    assert_eq!(NoiseMode::Additive.label(), "Additiv");
    assert_eq!(NoiseMode::Multiplicative.label(), "×(1±val)");
    assert_eq!(NoiseMode::Walk.label(), "s×(prev×(1±))");
    assert_eq!(NoiseMode::Parabolic.label(), "s×v(2+n−v)");
    assert_eq!(NoiseMode::default(), NoiseMode::Additive);
}

#[test]
fn noise_dist_labels() {
    assert_eq!(NoiseDist::ALL.len(), 2);
    assert_eq!(NoiseDist::Uniform.label(), "Gleich");
    assert_eq!(NoiseDist::Gauss.label(), "Gauß");
    assert_eq!(NoiseDist::default(), NoiseDist::Uniform);
}

#[test]
fn waveform_labels_and_order() {
    let all = Waveform::ALL;
    assert_eq!(all, [Waveform::Sine, Waveform::Square, Waveform::Saw, Waveform::Triangle]);
    let labels: Vec<&str> = all.iter().map(|w| w.label()).collect();
    assert_eq!(labels, vec!["sine", "square", "saw", "triangle"]);
    assert_eq!(Waveform::default(), Waveform::Sine);
}

#[test]
fn osc_interact_labels_and_order() {
    let all = OscInteract::ALL;
    assert_eq!(all.len(), 5);
    let labels: Vec<&str> = all.iter().map(|m| m.label()).collect();
    assert_eq!(labels, vec!["Mix", "AM", "Ring", "FM", "Sync"]);
    assert_eq!(OscInteract::default(), OscInteract::Mix);
}

#[test]
fn noise_orders() {
    assert_eq!(
        NoiseMode::ALL,
        [NoiseMode::Additive, NoiseMode::Multiplicative, NoiseMode::Walk, NoiseMode::Parabolic]
    );
    assert_eq!(NoiseDist::ALL, [NoiseDist::Uniform, NoiseDist::Gauss]);
}

#[test]
fn layout_names() {
    assert_eq!(Layout::Qwertz.name(), "QWERTZ");
    assert_eq!(Layout::Qwerty.name(), "QWERTY");
    assert_eq!(Layout::default(), Layout::Qwertz);
}
