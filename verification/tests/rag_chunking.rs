use std::sync::Arc;

use xz_modules::rag::chunker::{ChunkStrategy, FixedSizeChunker, RecursiveCharacterChunker, SemanticChunker};
use xz_modules::rag::indexing::{DocumentIndexer, IndexDocument};
use xz_modules::rag::types::{Chunk, ChunkMetadata};

#[test]
fn test_fixed_chunker() {
    let chunker = FixedSizeChunker::new(10, 2);
    let text = "ABCDEFGHIJKLMNOPQRSTUVWXYZ";
    let chunks = chunker.chunk(text);
    assert!(chunks.len() > 1);
    for c in &chunks {
        assert!(c.len() <= 10 + 2);
    }
    assert!(chunks[0].ends_with(&chunks[1][..2.min(chunks[1].len())]));
}

#[test]
fn recursive_test_recursive_chunker() {
    let chunker = RecursiveCharacterChunker::new(50, 10, RecursiveCharacterChunker::default_separators());
    let text = "Hello world.\n\nThis is a test.\n\nAnother paragraph here.";
    let chunks = chunker.chunk(text);
    assert!(!chunks.is_empty());
    for c in &chunks {
        assert!(c.len() <= 60);
    }
}

#[test]
fn test_fixed_size_chunker() {
    let chunker = FixedSizeChunker::new(10, 2);
    let text = "ABCDEFGHIJKLMNOPQRSTUVWXYZ";
    let chunks = chunker.chunk(text);
    assert!(chunks.len() > 1);
    for c in &chunks {
        assert!(c.len() <= 10 + 2);
    }
}

#[test]
fn chunker_tests_test_recursive_chunker() {
    let chunker = RecursiveCharacterChunker::new(50, 10, RecursiveCharacterChunker::default_separators());
    let text = "Hello world.\n\nThis is a test.\n\nAnother paragraph here.";
    let chunks = chunker.chunk(text);
    assert!(!chunks.is_empty());
}

#[test]
fn test_semantic_chunker() {
    let chunker = SemanticChunker::new(SemanticChunker::default_separators());
    let text = "Paragraph one.\n\nParagraph two.\n\nParagraph three.";
    let chunks = chunker.chunk(text);
    assert_eq!(chunks.len(), 3);
}

#[test]
fn test_document_indexer() {
    let chunker: Arc<dyn ChunkStrategy> = Arc::new(FixedSizeChunker::new(100, 20));
    let indexer = DocumentIndexer::new(chunker, "test-ns".to_string());

    let doc = IndexDocument {
        id: "doc1".to_string(),
        content: "This is a test document with enough content to generate multiple chunks. ".repeat(10),
        title: Some("Test Document".to_string()),
        metadata: ChunkMetadata::default(),
    };

    let chunks = indexer.index_document(doc).unwrap();
    assert!(!chunks.is_empty());
    for chunk in &chunks {
        assert_eq!(chunk.metadata.namespace.as_deref(), Some("test-ns"));
        assert!(chunk.id.starts_with("doc1-"));
    }
}

#[test]
fn fixed_windows_exact() {
    let chunks = FixedSizeChunker::new(4, 1).chunk("abcdefghij");
    // stride 3: windows start at 0, 3, 6, 9
    assert_eq!(chunks, vec!["abcd", "defg", "ghij", "j"]);
    assert!(FixedSizeChunker::new(4, 1).chunk("").is_empty());
    assert_eq!(FixedSizeChunker::new(3, 0).name(), "fixed_size");
    // characters, not bytes
    assert_eq!(FixedSizeChunker::new(2, 0).chunk("你好世界"), vec!["你好", "世界"]);
}

#[test]
fn recursive_split_and_merge_exact() {
    let seps = RecursiveCharacterChunker::default_separators();
    let chunker = RecursiveCharacterChunker::new(10, 2, seps);
    // fits as a whole
    assert_eq!(chunker.chunk("short"), vec!["short"]);
    assert!(chunker.chunk("").is_empty());
    // split at paragraphs, then merged while the parts fit in 10 bytes
    assert_eq!(chunker.chunk("aaaa\n\nbbbb\n\ncccccccccccc"), vec!["aaaabbbb", "cccccccccc", "cccc"]);
    assert_eq!(chunker.name(), "recursive");
    // no separator at all: windows of 10 characters, stride 8
    let plain = RecursiveCharacterChunker::new(10, 2, vec![]);
    assert_eq!(plain.chunk("abcdefghijklmno"), vec!["abcdefghij", "ijklmno"]);
}

#[test]
fn recursive_chunks_never_exceed_size() {
    let chunker = RecursiveCharacterChunker::new(8, 3, RecursiveCharacterChunker::default_separators());
    let text = "one two three four five six seven eight nine ten.\n\nEleven twelve. Thirteen fourteen\nfifteen";
    for c in chunker.chunk(text) {
        assert!(c.chars().count() <= 8, "chunk {:?}", c);
    }
}

#[test]
fn semantic_fallbacks() {
    let chunker = SemanticChunker::new(SemanticChunker::default_separators());
    assert_eq!(chunker.chunk("no breaks here"), vec!["no breaks here"]);
    assert!(chunker.chunk("").is_empty());
    // blank parts are dropped
    assert_eq!(chunker.chunk("a\n\n   \n\nb"), vec!["a", "b"]);
    // the first separator that occurs decides; later ones are not tried
    assert_eq!(chunker.chunk("x. y\nz"), vec!["x. y", "z"]);
    assert_eq!(chunker.name(), "semantic");
}

#[test]
fn indexer_ids_and_metadata() {
    let chunker: Arc<dyn ChunkStrategy> = Arc::new(FixedSizeChunker::new(5, 0));
    let indexer = DocumentIndexer::new(chunker, "ns".to_string());
    let mut meta = ChunkMetadata::default();
    meta.author = Some("ann".into());
    meta.tags = vec!["t".into()];
    let doc = IndexDocument { id: "d".into(), content: "0123456789ab".into(), title: None, metadata: meta };
    let chunks: Vec<Chunk> = indexer.index_document(doc).unwrap();
    let ids: Vec<&str> = chunks.iter().map(|c| c.id.as_str()).collect();
    assert_eq!(ids, vec!["d-0", "d-1", "d-2"]);
    assert_eq!(chunks[2].content, "ab");
    assert_eq!(chunks[1].chunk_index, 1);
    assert_eq!(chunks[0].document_id, "d");
    assert_eq!(chunks[0].metadata.author.as_deref(), Some("ann"));
    assert_eq!(chunks[0].metadata.tags, vec!["t".to_string()]);
    assert!(chunks[0].metadata.document_title.is_none());
    assert!(chunks[0].created_at > 0);
}

#[test]
fn merge_keeps_text_and_never_adds_pieces() {
    let c = RecursiveCharacterChunker::new(6, 1, vec![" ".to_string()]);
    let pieces: Vec<Vec<char>> = ["ab", "cd", "efg", "h", "ijklmn"].iter().map(|p| p.chars().collect()).collect();
    let merged = c.merge_chunks(pieces.clone());
    assert!(merged.len() <= pieces.len());
    assert_eq!(merged.concat(), pieces.concat());
    assert_eq!(merged.iter().map(|m| m.iter().collect::<String>()).collect::<Vec<_>>(), vec!["abcd", "efgh", "ijklmn"]);
    assert!(c.merge_chunks(vec![]).is_empty());
}

#[test]
fn recursive_chunks_are_never_empty() {
    let c = RecursiveCharacterChunker::new(8, 2, RecursiveCharacterChunker::default_separators());
    for text in ["", "   ", "a\n\n\n\nb", "word word word word word", "x. y. z.\n\nlonger paragraph here"] {
        for chunk in c.chunk(text) {
            assert!(!chunk.is_empty() && chunk.chars().count() <= 8, "{:?} from {:?}", chunk, text);
        }
    }
}
