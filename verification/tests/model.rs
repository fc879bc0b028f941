use opengate::model::Model;

#[test]
fn test_base_url() {
    let m = Model::new("en", "en_US", "amy", "medium");
    assert_eq!(
        m.base_url(),
        "https://huggingface.co/rhasspy/piper-voices/resolve/main/en/en_US/amy/medium/en_US-amy-medium"
    );
}

#[test]
fn test_init_all() {
    let ms = Model::init_all();
    assert_eq!(ms.len(), 5);
    assert!(ms.iter().all(|m| m.shortlang == "en" && m.lang == "en_US"));
    let names: Vec<&str> = ms.iter().map(|m| m.name.as_str()).collect();
    assert_eq!(names, vec!["kristin", "amy", "reza_ibrahim", "ryan", "libritts"]);
    let sizes: Vec<&str> = ms.iter().map(|m| m.size.as_str()).collect();
    assert_eq!(sizes, vec!["medium", "medium", "medium", "high", "high"]);
}
