use latex_preview::arxiv::{extract_id, search_url, ArxivAuthor, ArxivEntry, ArxivLink};
use latex_preview::config::AppConfig;

#[test]
fn test_default_config_roster() {
    let config = AppConfig::default();
    assert_eq!(config.active_provider, "Ollama");
    assert_eq!(config.providers.len(), 3);
    assert_eq!(config.providers[0].name, "Ollama");
    assert_eq!(config.providers[0].base_url, "http://localhost:11434");
    assert_eq!(config.providers[0].active_model, "qwen2.5:0.5b");
    assert_eq!(config.providers[1].name, "DeepSeek");
    assert_eq!(config.providers[2].name, "OpenAI");
    assert!(config.providers[2].api_key.is_none());
}

#[test]
fn test_get_active_provider_finds_first_match() {
    let config = AppConfig::default();
    let active = config.get_active_provider().expect("the default roster names its active provider");
    assert_eq!(active.name, "Ollama");
}

#[test]
fn test_get_active_provider_missing() {
    let mut config = AppConfig::default();
    config.active_provider = "NoSuchProvider".to_string();
    assert!(config.get_active_provider().is_none());
}

#[test]
fn test_config_file_location() {
    let path = AppConfig::config_file();
    assert!(path.ends_with("/latex-rs/config.toml"));
    let dir = AppConfig::config_dir();
    assert!(dir.ends_with("/latex-rs"));
}

#[test]
fn test_extract_id_takes_last_segment() {
    assert_eq!(extract_id("http://arxiv.org/abs/2101.00001v1"), "2101.00001v1");
    assert_eq!(extract_id("2101.00001"), "2101.00001");
    assert_eq!(extract_id("a/b/"), "");
    assert_eq!(extract_id(""), "");
}

#[test]
fn test_bibtex_url_appends_id() {
    assert_eq!(
        latex_preview::arxiv::bibtex_url("2101.00001v1"),
        "https://arxiv.org/bibtex/2101.00001v1"
    );
}

#[test]
fn test_search_url_encodes_query() {
    let url = search_url("graph neural networks");
    assert_eq!(
        url,
        "https://export.arxiv.org/api/query?search_query=all:graph%20neural%20networks&max_results=15"
    );
}

#[test]
fn test_arxiv_entry_shape() {
    let entry = ArxivEntry {
        id: "http://arxiv.org/abs/1234.5678".to_string(),
        title: "A Title".to_string(),
        summary: "A summary".to_string(),
        authors: vec![ArxivAuthor { name: "A. Author".to_string() }],
        links: vec![ArxivLink { href: "http://example.org".to_string(), rel: "alternate".to_string() }],
        published: "2024-01-01".to_string(),
    };
    assert_eq!(extract_id(&entry.id), "1234.5678");
    assert_eq!(entry.authors.len(), 1);
    assert_eq!(entry.links[0].rel, "alternate");
}
