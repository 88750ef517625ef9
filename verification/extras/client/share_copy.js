/* The copy button beside a link. */
(function () {
    if (window.__inShareCopy) { return; }
    window.__inShareCopy = true;
    document.addEventListener('click', function (e) {
        var b = e.target.closest ? e.target.closest('.share-copy') : null;
        if (!b) { return; }
        var u = b.parentNode.querySelector('.share-link-url');
        if (!u) { return; }
        u.select();
        var done = function () { b.textContent = b.getAttribute('data-copied-label'); };
        if (navigator.clipboard && navigator.clipboard.writeText) { navigator.clipboard.writeText(u.value).then(done, done); }
        else { try { document.execCommand('copy'); } catch (err) {} done(); }
    });
})();
