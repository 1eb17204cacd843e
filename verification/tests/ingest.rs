use file_embedding::batch::{BatchReport, IndexFailure, WalkEntry, WalkFailure};
use file_embedding::format::Format;
use file_embedding::ingest::{classify, stored, Extraction, FileProbe};
use file_embedding::{FileEmbeddingError, FileEmbeddingSystem, FileRecord};

fn file(size_bytes: u64) -> Result<FileProbe, String> {
    Ok(FileProbe { is_file: true, size_bytes })
}

fn bits(values: &[f32]) -> Vec<u32> {
    values.iter().map(|v| v.to_bits()).collect()
}

fn index(
    system: &FileEmbeddingSystem,
    path: &str,
    content: &str,
    embedding: &[f32],
) -> Result<FileRecord, FileEmbeddingError> {
    let candidate = system.index_file(path, file(content.len() as u64))?;
    let extracted = candidate.extracted(Extraction::Text(content.to_string()))?;
    assert_eq!(extracted.text(), content);
    extracted.embedded(Ok(bits(embedding)))
}

#[test]
fn test_unsupported_file_types() {
    let system = FileEmbeddingSystem::new();
    let content = "Some content";
    let result = system.index_file("/tmp/dir/test.xyz", file(content.len() as u64));
    assert!(matches!(result, Err(FileEmbeddingError::UnsupportedFileType(_))));
}

#[test]
fn test_pdf_handling() {
    let system = FileEmbeddingSystem::new();
    let content = b"Not a real PDF file";
    let candidate = system.index_file("/tmp/dir/test.pdf", file(content.len() as u64)).unwrap();
    assert_eq!(candidate.format(), Format::Pdf);
    let outcome = match pdf_extract::extract_text_from_mem(content) {
        Ok(text) => Extraction::Text(text),
        Err(e) => Extraction::Malformed(e.to_string()),
    };
    let result = candidate.extracted(outcome);
    assert!(result.is_err(), "Should fail on invalid PDF file");
    assert!(matches!(result, Err(FileEmbeddingError::PdfExtraction(_))));
}

#[test]
fn unsupported_extension_is_named_in_the_failure() {
    let system = FileEmbeddingSystem::new();
    let result = system.index_file("/tmp/test.xyz", file(3));
    assert_eq!(result.unwrap_err(), FileEmbeddingError::UnsupportedFileType("xyz".to_string()));
    let again = system.index_file("/tmp/test.xyz", file(3));
    assert_eq!(again.unwrap_err(), FileEmbeddingError::UnsupportedFileType("xyz".to_string()));
    let upper = system.index_file("/tmp/test.XyZ", file(3));
    assert_eq!(upper.unwrap_err(), FileEmbeddingError::UnsupportedFileType("xyz".to_string()));
}

#[test]
fn missing_extension_is_reported_as_unknown() {
    let system = FileEmbeddingSystem::new();
    for path in ["/tmp/README", "/tmp/.bashrc", "/tmp.txt/file", ""] {
        let result = system.index_file(path, file(3));
        assert_eq!(
            result.unwrap_err(),
            FileEmbeddingError::UnsupportedFileType("unknown".to_string())
        );
    }
}

#[test]
fn what_is_no_regular_file_is_unsupported() {
    let system = FileEmbeddingSystem::new();
    let probe = Ok(FileProbe { is_file: false, size_bytes: 4096 });
    let result = system.index_file("/tmp/folder.txt", probe);
    assert_eq!(result.unwrap_err(), FileEmbeddingError::UnsupportedFileType("txt".to_string()));
    let probe = Ok(FileProbe { is_file: false, size_bytes: 4096 });
    let result = system.index_file("/tmp/folder", probe);
    assert_eq!(
        result.unwrap_err(),
        FileEmbeddingError::UnsupportedFileType("unknown".to_string())
    );
}

#[test]
fn failed_inspection_is_an_io_failure() {
    let system = FileEmbeddingSystem::new();
    let result = system.index_file("/tmp/gone.txt", Err("No such file or directory".to_string()));
    assert_eq!(
        result.unwrap_err(),
        FileEmbeddingError::Io("No such file or directory".to_string())
    );
}

#[test]
fn extension_is_matched_in_lower_case() {
    let system = FileEmbeddingSystem::new();
    let candidate = system.index_file("/tmp/NOTES.TXT", file(5)).unwrap();
    assert_eq!(candidate.format(), Format::Text);
    assert_eq!(candidate.path(), "/tmp/NOTES.TXT");
    let record = candidate
        .extracted(Extraction::Text("hello".to_string()))
        .unwrap()
        .embedded(Ok(bits(&[0.5])))
        .unwrap();
    assert_eq!(record.extension, Some("txt".to_string()));
    assert_eq!(record.name, "NOTES.TXT");
    assert_eq!(record.mime_type, Some("text/plain".to_string()));
    let candidate = system.index_file("/tmp/Paper.Pdf", file(5)).unwrap();
    assert_eq!(candidate.format(), Format::Pdf);
}

#[test]
fn record_holds_what_was_handed_in() {
    let system = FileEmbeddingSystem::new();
    let content = "Rust is a systems programming language";
    let record = index(&system, "/data/docs/rust_doc.txt", content, &[0.25, -0.5, 1.0]).unwrap();
    assert_eq!(
        record,
        FileRecord {
            path: "/data/docs/rust_doc.txt".to_string(),
            name: "rust_doc.txt".to_string(),
            extension: Some("txt".to_string()),
            mime_type: Some("text/plain".to_string()),
            size_bytes: content.len() as u64,
            content_embedding: vec![0x3e80_0000, 0xbf00_0000, 0x3f80_0000],
            content_preview: content.to_string(),
        }
    );
}

#[test]
fn record_of_a_pdf_has_the_pdf_media_type() {
    let system = FileEmbeddingSystem::new();
    let record = index(&system, "/data/paper.pdf", "text of the paper", &[1.0]).unwrap();
    assert_eq!(record.mime_type, Some("application/pdf".to_string()));
    assert_eq!(record.extension, Some("pdf".to_string()));
    assert_eq!(record.name, "paper.pdf");
}

#[test]
fn record_preview_is_cut_at_a_thousand_characters() {
    let system = FileEmbeddingSystem::new();
    let content = "x".repeat(1000) + "tail";
    let record = index(&system, "/data/long.md", &content, &[1.0]).unwrap();
    assert_eq!(record.content_preview, "x".repeat(1000));
    assert_eq!(record.size_bytes, 1004);
}

#[test]
fn size_is_the_one_that_inspection_reported() {
    let system = FileEmbeddingSystem::new();
    let candidate = system.index_file("/data/a.txt", file(u64::MAX)).unwrap();
    let record = candidate
        .extracted(Extraction::Text(String::new()))
        .unwrap()
        .embedded(Ok(Vec::new()))
        .unwrap();
    assert_eq!(record.size_bytes, u64::MAX);
    assert_eq!(record.content_preview, "");
    assert!(record.content_embedding.is_empty());
}

#[test]
fn failed_extraction_ends_the_file() {
    let system = FileEmbeddingSystem::new();
    let candidate = system.index_file("/data/a.txt", file(1)).unwrap();
    let result = candidate.extracted(Extraction::Unreadable("invalid utf-8".to_string()));
    assert_eq!(result.unwrap_err(), FileEmbeddingError::Io("invalid utf-8".to_string()));
    let candidate = system.index_file("/data/a.pdf", file(1)).unwrap();
    let result = candidate.extracted(Extraction::Malformed("no trailer".to_string()));
    assert_eq!(result.unwrap_err(), FileEmbeddingError::PdfExtraction("no trailer".to_string()));
}

#[test]
fn failed_embedding_ends_the_file() {
    let system = FileEmbeddingSystem::new();
    let extracted = system
        .index_file("/data/a.txt", file(1))
        .unwrap()
        .extracted(Extraction::Text("a".to_string()))
        .unwrap();
    let result = extracted.embedded(Err("model failed".to_string()));
    assert_eq!(result.unwrap_err(), FileEmbeddingError::Embedding("model failed".to_string()));
}

#[test]
fn store_refusal_is_a_database_failure() {
    assert_eq!(stored(Ok(())), Ok(()));
    assert_eq!(
        stored(Err("index idx_path already contains the path".to_string())),
        Err(FileEmbeddingError::Database("index idx_path already contains the path".to_string()))
    );
}

#[test]
fn classify_decides_from_kind_and_extension() {
    assert_eq!(classify(true, Some("txt".to_string())), Ok((Format::Text, "txt".to_string())));
    assert_eq!(classify(true, Some("pdf".to_string())), Ok((Format::Pdf, "pdf".to_string())));
    assert_eq!(
        classify(false, Some("pdf".to_string())),
        Err(FileEmbeddingError::UnsupportedFileType("pdf".to_string()))
    );
    assert_eq!(
        classify(true, Some("PDF".to_string())),
        Err(FileEmbeddingError::UnsupportedFileType("PDF".to_string()))
    );
    assert_eq!(
        classify(true, None),
        Err(FileEmbeddingError::UnsupportedFileType("unknown".to_string()))
    );
    assert_eq!(
        classify(false, None),
        Err(FileEmbeddingError::UnsupportedFileType("unknown".to_string()))
    );
}

#[test]
fn each_failure_has_its_message() {
    let cases = [
        (FileEmbeddingError::Io("denied".to_string()), "IO error: denied"),
        (FileEmbeddingError::Database("dup".to_string()), "Database error: dup"),
        (FileEmbeddingError::Embedding("oom".to_string()), "Embedding error: oom"),
        (
            FileEmbeddingError::UnsupportedFileType("xyz".to_string()),
            "Unsupported file type: xyz",
        ),
        (FileEmbeddingError::PdfExtraction("bad".to_string()), "PDF extraction error: bad"),
        (FileEmbeddingError::WalkDir("loop".to_string()), "WalkDir error: loop"),
    ];
    for (error, expected) in cases {
        assert_eq!(error.message(), expected);
    }
}

fn run_batch(
    system: &FileEmbeddingSystem,
    entries: Vec<Result<WalkEntry, WalkFailure>>,
) -> (BatchReport, Vec<FileRecord>) {
    let mut report = BatchReport::new();
    let mut store: Vec<FileRecord> = Vec::new();
    for entry in entries {
        if let Some(path) = system.index_directory(&mut report, entry) {
            let outcome = match index(system, &path, "some text", &[1.0, 0.0]) {
                Ok(record) => {
                    let reply = if store.iter().any(|r| r.path == record.path) {
                        Err("duplicate path".to_string())
                    } else {
                        store.push(record);
                        Ok(())
                    };
                    stored(reply)
                }
                Err(e) => Err(e),
            };
            report.record(path, outcome);
        }
    }
    (report, store)
}

fn found(path: &str, is_file: bool) -> Result<WalkEntry, WalkFailure> {
    Ok(WalkEntry { path: path.to_string(), is_file })
}

#[test]
fn batch_keeps_a_failure_to_its_own_file() {
    let system = FileEmbeddingSystem::new();
    let (report, store) = run_batch(
        &system,
        vec![found("/d", false), found("/d/bad.xyz", true), found("/d/good.txt", true)],
    );
    assert_eq!(store.len(), 1);
    assert_eq!(store[0].path, "/d/good.txt");
    assert_eq!(report.indexed, vec!["/d/good.txt".to_string()]);
    assert_eq!(
        report.failures,
        vec![IndexFailure {
            path: Some("/d/bad.xyz".to_string()),
            error: FileEmbeddingError::UnsupportedFileType("xyz".to_string()),
        }]
    );
}

#[test]
fn batch_goes_on_after_a_failure_of_the_walk() {
    let system = FileEmbeddingSystem::new();
    let (report, store) = run_batch(
        &system,
        vec![
            found("/d/a.txt", true),
            Err(WalkFailure {
                path: Some("/d/locked".to_string()),
                detail: "permission denied".to_string(),
            }),
            Err(WalkFailure { path: None, detail: "loop".to_string() }),
            found("/d/b.md", true),
        ],
    );
    assert_eq!(store.len(), 2);
    assert_eq!(report.indexed, vec!["/d/a.txt".to_string(), "/d/b.md".to_string()]);
    assert_eq!(
        report.failures,
        vec![
            IndexFailure {
                path: Some("/d/locked".to_string()),
                error: FileEmbeddingError::WalkDir("permission denied".to_string()),
            },
            IndexFailure { path: None, error: FileEmbeddingError::WalkDir("loop".to_string()) },
        ]
    );
}

#[test]
fn batch_passes_over_what_is_no_regular_file() {
    let system = FileEmbeddingSystem::new();
    let mut report = BatchReport::new();
    assert_eq!(system.index_directory(&mut report, found("/d/sub.txt", false)), None);
    assert_eq!(
        system.index_directory(&mut report, found("/d/sub.txt/a.txt", true)),
        Some("/d/sub.txt/a.txt".to_string())
    );
    assert!(report.indexed.is_empty());
    assert!(report.failures.is_empty());
}

#[test]
fn second_record_for_a_path_is_refused_by_the_store() {
    let system = FileEmbeddingSystem::new();
    let (report, store) =
        run_batch(&system, vec![found("/d/a.txt", true), found("/d/a.txt", true)]);
    assert_eq!(store.len(), 1);
    assert_eq!(report.indexed, vec!["/d/a.txt".to_string()]);
    assert_eq!(
        report.failures,
        vec![IndexFailure {
            path: Some("/d/a.txt".to_string()),
            error: FileEmbeddingError::Database("duplicate path".to_string()),
        }]
    );
}
